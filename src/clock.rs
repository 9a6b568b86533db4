use vstd::prelude::*;

verus! {

/// Simulated time per tick: a 240th of a second, in nanoseconds.
pub const UPDATE_TIME: u64 = 4_166_666;

/// Grace period between a restart and the round running, in nanoseconds.
pub const START_DELAY: u64 = 2_000_000_000;

/// Phase of the round, with the time at which the round started.
#[derive(Clone, Copy, Debug, PartialEq, Eq, Structural)]
pub enum GameState {
    Starting(u64),
    Running(u64),
    Paused(u64),
    Stopped(u64),
}

/// Simulation time. Time advances by a fixed quantum per tick while the
/// round starts or runs, and stands still while it is paused or stopped.
/// All times are nanoseconds.
pub struct Clock {
    pub now: u64,
    pub frame_delta: u64,
}

impl Clock {
    /// A clock that starts at `now`, with no tick behind it.
    pub fn new(now: u64) -> (r: Self)
        ensures
            r.now == now,
            r.frame_delta == 0,
    {
        Clock { now, frame_delta: 0 }
    }

    /// Advances the clock by one tick of a round in state `state`.
    pub fn update(&mut self, state: &GameState)
        requires
            (*state is Starting || *state is Running) ==> old(self).now + UPDATE_TIME <= u64::MAX,
        ensures
            match *state {
                GameState::Paused(_) | GameState::Stopped(_) => {
                    &&& final(self).frame_delta == 0
                    &&& final(self).now == old(self).now
                },
                _ => {
                    &&& final(self).frame_delta == UPDATE_TIME
                    &&& final(self).now == old(self).now + UPDATE_TIME
                },
            },
    {
        match state {
            GameState::Paused(_) | GameState::Stopped(_) => {
                self.frame_delta = 0;
            },
            GameState::Starting(_) | GameState::Running(_) => {
                self.frame_delta = UPDATE_TIME;
                self.now = self.now + self.frame_delta;
            },
        }
    }
}

} // verus!
