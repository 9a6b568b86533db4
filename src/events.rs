use vstd::prelude::*;

use crate::clock::GameState;
use crate::player::{Player, PLAYER_COLOR_COUNT};
use crate::protocol::{ClientEvent, Direction, GameEvent};
use crate::world::World;

verus! {

/// What the host does after a remote-control event is applied to the world.
#[derive(Clone, Copy, Debug, PartialEq, Eq, Structural)]
pub enum EventAction {
    /// Nothing more.
    Nothing,
    /// Send the player list to the remote controls.
    SyncPlayers,
    /// Start a new round, placing every player anew.
    Restart,
    /// Show the share screen, or leave it.
    ToggleShare,
    /// Show the help screen, or leave it.
    ToggleHelp,
    /// Add a player, and answer the request with this id with them.
    AddPlayer(u64),
}

/// The first player of `ps` with id `id`.
pub open spec fn first_with_id<B>(ps: Seq<Player<B>>, id: u16, i: int) -> bool {
    &&& 0 <= i < ps.len()
    &&& ps[i].id == id
    &&& forall|j: int| 0 <= j < i ==> #[trigger] ps[j].id != id
}

/// No player of `ps` has id `id`.
pub open spec fn no_id<B>(ps: Seq<Player<B>>, id: u16) -> bool {
    forall|j: int| 0 <= j < ps.len() ==> #[trigger] ps[j].id != id
}

/// `r` is how player `p` is announced to the remote controls: id, colour
/// as opaque red, green, blue and alpha, and name.
pub open spec fn announces<B>(r: crate::protocol::Player, p: Player<B>) -> bool {
    &&& r.id == p.id
    &&& r.color[0] == p.color.spec_rgb().0
    &&& r.color[1] == p.color.spec_rgb().1
    &&& r.color[2] == p.color.spec_rgb().2
    &&& r.color[3] == 255
    &&& r.name == p.name
}

/// How player `p` is announced to the remote controls.
pub fn player_dto<B>(p: &Player<B>) -> (r: crate::protocol::Player)
    ensures
        announces(r, *p),
{
    let (red, green, blue) = p.color.rgb();
    crate::protocol::Player::new(p.id, [red, green, blue, 255], p.name.clone())
}

/// `post` is `pre` with only its players perhaps changed, and as many.
pub open spec fn same_but_players<B>(pre: World<B>, post: World<B>) -> bool {
    &&& post.players@.len() == pre.players@.len()
    &&& post.next_id == pre.next_id
    &&& post.is_running == pre.is_running
    &&& post.clock == pre.clock
    &&& post.state == pre.state
    &&& post.effects == pre.effects
    &&& post.crash_feed == pre.crash_feed
}

/// `post` is `pre` after the first player with id `id` steers `dir` by
/// remote control.
pub open spec fn steered<B>(pre: World<B>, post: World<B>, id: u16, dir: Direction) -> bool {
    &&& same_but_players(pre, post)
    &&& forall|i: int|
        0 <= i < pre.players@.len() ==> #[trigger] post.players@[i] == if first_with_id(
            pre.players@,
            id,
            i,
        ) {
            Player { remote_direction: dir, ..pre.players@[i] }
        } else {
            pre.players@[i]
        }
}

/// `post` is `pre` after, when `acts`, the first player with id `id` moves
/// to the previous (`back`) or the next colour of the palette.
pub open spec fn recolored<B>(pre: World<B>, post: World<B>, id: u16, back: bool, acts: bool) -> bool {
    &&& same_but_players(pre, post)
    &&& forall|i: int|
        0 <= i < pre.players@.len() ==> {
            let p = #[trigger] post.players@[i];
            let q = pre.players@[i];
            if acts && first_with_id(pre.players@, id, i) {
                &&& p == Player { color: p.color, ..q }
                &&& p.color.index() as int == (q.color.index() + if back {
                    PLAYER_COLOR_COUNT - 1
                } else {
                    1
                }) as int % (PLAYER_COLOR_COUNT as int)
            } else {
                p == q
            }
        }
}

/// `post` is `pre` after the first player with id `id` is renamed `name`.
pub open spec fn renamed<B>(pre: World<B>, post: World<B>, id: u16, name: String) -> bool {
    &&& same_but_players(pre, post)
    &&& forall|i: int|
        0 <= i < pre.players@.len() ==> #[trigger] post.players@[i] == if first_with_id(
            pre.players@,
            id,
            i,
        ) {
            Player { name: name, ..pre.players@[i] }
        } else {
            pre.players@[i]
        }
}

impl<B> World<B> {
    /// The list of players to send to the remote controls, in order.
    pub fn player_sync(&self) -> (r: GameEvent)
        ensures
            r matches GameEvent::PlayerSync { players } && players@.len() == self.players@.len()
                && forall|i: int|
                0 <= i < players@.len() ==> announces(#[trigger] players@[i], self.players@[i]),
    {
        let mut players: Vec<crate::protocol::Player> = Vec::new();
        let mut i: usize = 0;
        while i < self.players.len()
            invariant
                i <= self.players@.len(),
                players@.len() == i,
                forall|j: int| 0 <= j < i ==> announces(#[trigger] players@[j], self.players@[j]),
            decreases self.players@.len() - i,
        {
            players.push(player_dto(&self.players[i]));
            i = i + 1;
        }
        GameEvent::PlayerSync { players }
    }

    /// The index of the first player with id `id`, if any.
    pub fn find_player(&self, id: u16) -> (r: Option<usize>)
        ensures
            r matches Some(i) ==> first_with_id(self.players@, id, i as int),
            r is None ==> no_id(self.players@, id),
    {
        let mut i: usize = 0;
        while i < self.players.len()
            invariant
                i <= self.players@.len(),
                forall|j: int| 0 <= j < i ==> #[trigger] self.players@[j].id != id,
            decreases self.players@.len() - i,
        {
            if self.players[i].id == id {
                return Some(i);
            }
            i = i + 1;
        }
        None
    }

    /// Sets the remote steering of the first player with id `id`, if any.
    pub fn steer(&mut self, id: u16, dir: Direction)
        ensures
            steered(*old(self), *final(self), id, dir),
    {
        if let Some(i) = self.find_player(id) {
            self.players[i].remote_direction = dir;
        }
    }

    /// While the round is stopped, moves the first player with id `id` to
    /// the previous (`back`) or the next colour of the palette; returns
    /// whether it did.
    pub fn cycle_color(&mut self, id: u16, back: bool) -> (r: bool)
        ensures
            r == (old(self).state is Stopped && !no_id(old(self).players@, id)),
            recolored(*old(self), *final(self), id, back, r),
    {
        if !matches!(self.state, GameState::Stopped(_)) {
            return false;
        }
        if let Some(i) = self.find_player(id) {
            if back {
                self.players[i].color.prev();
            } else {
                self.players[i].color.next();
            }
            true
        } else {
            false
        }
    }

    /// Renames the first player with id `id`, if any; returns whether there
    /// was one.
    pub fn rename(&mut self, id: u16, name: String) -> (r: bool)
        ensures
            r == !no_id(old(self).players@, id),
            renamed(*old(self), *final(self), id, name),
    {
        if let Some(i) = self.find_player(id) {
            self.players[i].name = name;
            true
        } else {
            false
        }
    }

    /// Applies an event of a remote control and says what the host still
    /// has to do. Steering and renaming reach the first player with the
    /// event's id; colours change, players are added and screens toggled
    /// only while the round is stopped; pausing toggles the pause.
    pub fn apply_event(&mut self, event: ClientEvent) -> (r: EventAction)
        ensures
            match event {
                ClientEvent::SyncPlayers => r == EventAction::SyncPlayers && *final(self) == *old(self),
                ClientEvent::Restart => r == EventAction::Restart && *final(self) == *old(self),
                ClientEvent::Input { player_id, dir } => r == EventAction::Nothing && steered(
                    *old(self),
                    *final(self),
                    player_id,
                    dir,
                ),
                ClientEvent::PrevColor { player_id } => {
                    let acts = old(self).state is Stopped && !no_id(old(self).players@, player_id);
                    &&& r == if acts {
                        EventAction::SyncPlayers
                    } else {
                        EventAction::Nothing
                    }
                    &&& recolored(*old(self), *final(self), player_id, true, acts)
                },
                ClientEvent::NextColor { player_id } => {
                    let acts = old(self).state is Stopped && !no_id(old(self).players@, player_id);
                    &&& r == if acts {
                        EventAction::SyncPlayers
                    } else {
                        EventAction::Nothing
                    }
                    &&& recolored(*old(self), *final(self), player_id, false, acts)
                },
                ClientEvent::Rename { player_id, name } => {
                    &&& r == if no_id(old(self).players@, player_id) {
                        EventAction::Nothing
                    } else {
                        EventAction::SyncPlayers
                    }
                    &&& renamed(*old(self), *final(self), player_id, name)
                },
                ClientEvent::Pause => {
                    &&& r == EventAction::Nothing
                    &&& final(self).players == old(self).players
                    &&& final(self).state == (match old(self).state {
                        GameState::Running(s) => GameState::Paused(s),
                        GameState::Paused(s) => GameState::Running(s),
                        st => st,
                    })
                    &&& final(self).next_id == old(self).next_id
                    &&& final(self).is_running == old(self).is_running
                    &&& final(self).clock == old(self).clock
                    &&& final(self).effects == old(self).effects
                    &&& final(self).crash_feed == old(self).crash_feed
                },
                ClientEvent::Share => *final(self) == *old(self) && r == if old(self).state is Stopped {
                    EventAction::ToggleShare
                } else {
                    EventAction::Nothing
                },
                ClientEvent::Help => *final(self) == *old(self) && r == if old(self).state is Stopped {
                    EventAction::ToggleHelp
                } else {
                    EventAction::Nothing
                },
                ClientEvent::AddPlayer { request_id } => *final(self) == *old(self) && r == if old(
                    self,
                ).state is Stopped {
                    EventAction::AddPlayer(request_id)
                } else {
                    EventAction::Nothing
                },
            },
    {
        let stopped = matches!(self.state, GameState::Stopped(_));
        match event {
            ClientEvent::SyncPlayers => EventAction::SyncPlayers,
            ClientEvent::Restart => EventAction::Restart,
            ClientEvent::Input { player_id, dir } => {
                self.steer(player_id, dir);
                EventAction::Nothing
            },
            ClientEvent::PrevColor { player_id } => if self.cycle_color(player_id, true) {
                EventAction::SyncPlayers
            } else {
                EventAction::Nothing
            },
            ClientEvent::NextColor { player_id } => if self.cycle_color(player_id, false) {
                EventAction::SyncPlayers
            } else {
                EventAction::Nothing
            },
            ClientEvent::Rename { player_id, name } => if self.rename(player_id, name) {
                EventAction::SyncPlayers
            } else {
                EventAction::Nothing
            },
            ClientEvent::Pause => {
                self.toggle_pause();
                EventAction::Nothing
            },
            ClientEvent::Share => if stopped {
                EventAction::ToggleShare
            } else {
                EventAction::Nothing
            },
            ClientEvent::Help => if stopped {
                EventAction::ToggleHelp
            } else {
                EventAction::Nothing
            },
            ClientEvent::AddPlayer { request_id } => if stopped {
                EventAction::AddPlayer(request_id)
            } else {
                EventAction::Nothing
            },
        }
    }

}

} // verus!
