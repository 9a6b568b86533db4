use vstd::prelude::*;
use vstd::string::StringExecFns;

use crate::clock::{Clock, GameState, START_DELAY};
use crate::effect::{
    active_only, after_item, apply_player_item, expire_effects, gap_effect, has_gap,
    item_player_effect, spec_gap_effect, spec_world_effect, world_effect, Effect,
    WorldEffect,
};
use crate::item::ItemKind;
use crate::player::{Player, PlayerColor, PLAYER_COLOR_COUNT};

verus! {

/// Fewest players a world keeps.
pub const MIN_PLAYERS: usize = 2;

/// Most items lying in the arena at once.
pub const MAX_ITEMS: usize = 8;

/// Chance per second, in thousandths, that a player's trail opens a gap.
pub const GAP_RATE: u64 = 400;

/// Chance per second, in thousandths, that an item appears.
pub const ITEM_SPAWN_RATE: u64 = 480;

/// Rolls that decide random events are drawn from `0..ROLL_RANGE`: one
/// nanosecond times one thousandth per second.
pub const ROLL_RANGE: u64 = 1_000_000_000_000;

/// An event with `rate` thousandths per second happens during a tick of
/// `frame_delta` nanoseconds when the roll falls below their product.
pub open spec fn roll_hits(frame_delta: u64, rate: u64, roll: u64) -> bool {
    roll < frame_delta * rate
}

pub fn roll_succeeds(frame_delta: u64, rate: u64, roll: u64) -> (r: bool)
    ensures
        r == roll_hits(frame_delta, rate, roll),
{
    proof {
        assert((frame_delta as int) * (rate as int) <= (u64::MAX as int) * (u64::MAX as int))
            by (nonlinear_arith);
    }
    (roll as u128) < (frame_delta as u128) * (rate as u128)
}

/// The kind of item that appears during a tick, if one does: only while
/// fewer than `MAX_ITEMS` lie in the arena and `roll` hits, and then the kind
/// that `kind_roll` selects.
pub fn spawn_kind(frame_delta: u64, item_count: usize, roll: u64, kind_roll: u8) -> (r: Option<ItemKind>)
    requires
        kind_roll < crate::item::SUM_OF_ITEM_SPAWN_RATES,
    ensures
        r is Some <==> (item_count < MAX_ITEMS && roll_hits(frame_delta, ITEM_SPAWN_RATE, roll)),
        r matches Some(k) ==> crate::item::weight_prefix(k.index()) <= kind_roll
            < crate::item::weight_prefix(k.index() + 1),
{
    if item_count < MAX_ITEMS && roll_succeeds(frame_delta, ITEM_SPAWN_RATE, roll) {
        Some(ItemKind::from_roll(kind_roll))
    } else {
        None
    }
}

/// Draws whether an item appears during a tick, and of which kind, as
/// `spawn_kind` decides it.
pub fn draw_spawn_kind(frame_delta: u64, item_count: usize) -> (r: Option<ItemKind>)
    ensures
        r is Some ==> item_count < MAX_ITEMS,
        frame_delta == 0 ==> r is None,
{
    if item_count >= MAX_ITEMS {
        return None;
    }
    let roll = crate::random::random_below(ROLL_RANGE);
    let kind_roll = crate::random::random_below(crate::item::SUM_OF_ITEM_SPAWN_RATES as u64) as u8;
    spawn_kind(frame_delta, item_count, roll, kind_roll)
}

/// The effects after player `pi` of `pre` collects an item of kind `kind`:
/// a player item changes their effects, a wall-teleporting item adds an
/// arena effect; `deviate` lengthens the effect.
pub open spec fn item_collected<B>(pre: World<B>, post: World<B>, pi: int, kind: ItemKind, deviate: bool) -> bool {
    &&& post.players@[pi].effects@ == if item_player_effect(kind) is Some {
        after_item(pre.players@[pi].effects@, kind, pre.clock.now, deviate)
    } else {
        pre.players@[pi].effects@
    }
    &&& post.effects@ == if kind == ItemKind::WallTeleporting {
        pre.effects@.push(spec_world_effect(pre.clock.now, WorldEffect::WallTeleporting, deviate))
    } else {
        pre.effects@
    }
}

/// `b` is `a` with perhaps other effects.
pub open spec fn same_but_effects<B>(a: Player<B>, b: Player<B>) -> bool {
    &&& b.id == a.id
    &&& b.name == a.name
    &&& b.color == a.color
    &&& b.local_direction == a.local_direction
    &&& b.remote_direction == a.remote_direction
    &&& b.just_crashed == a.just_crashed
    &&& b.crashed == a.crashed
    &&& b.score == a.score
    &&& b.body == a.body
}

/// The crash feed entries of player `pi` for one tick, given whether they
/// hit a wall, their own trail, and which other player's trail they hit
/// first. A player already out adds none; one who leaves a gap hits no trail.
pub open spec fn crash_entries<B>(
    w: World<B>,
    pi: int,
    wall: bool,
    own: bool,
    other: Option<usize>,
) -> Seq<Crash> {
    let p = w.players@[pi];
    let now = w.clock.now;
    let solid = !has_gap(p.effects@);
    if p.crashed {
        Seq::empty()
    } else {
        let a = if wall {
            seq![Crash { time: now, message: CrashMessage::Wall { name: p.name, color: p.color } }]
        } else {
            Seq::empty()
        };
        let b = if solid && own {
            seq![Crash { time: now, message: CrashMessage::Own { name: p.name, color: p.color } }]
        } else {
            Seq::empty()
        };
        let c = match other {
            Some(o) => if solid {
                let q = w.players@[o as int];
                seq![
                    Crash {
                        time: now,
                        message: CrashMessage::Other {
                            crashed_name: p.name,
                            crashed_color: p.color,
                            other_name: q.name,
                            other_color: q.color,
                        },
                    },
                ]
            } else {
                Seq::empty()
            },
            None => Seq::empty(),
        };
        a + b + c
    }
}

/// Decimal digit `d`.
pub open spec fn digit_char(d: nat) -> char {
    if d == 0 {
        '0'
    } else if d == 1 {
        '1'
    } else if d == 2 {
        '2'
    } else if d == 3 {
        '3'
    } else if d == 4 {
        '4'
    } else if d == 5 {
        '5'
    } else if d == 6 {
        '6'
    } else if d == 7 {
        '7'
    } else if d == 8 {
        '8'
    } else {
        '9'
    }
}

/// Decimal digits of `n`, without leading zeros.
pub open spec fn decimal(n: nat) -> Seq<char>
    decreases n,
{
    if n < 10 {
        seq![digit_char(n)]
    } else {
        decimal(n / 10).push(digit_char(n % 10))
    }
}

/// The decimal digit `d` as a one-character string.
fn digit_str(d: usize) -> (r: &'static str)
    requires
        d < 10,
    ensures
        r@ == seq![digit_char(d as nat)],
{
    proof {
        reveal_strlit("0");
        reveal_strlit("1");
        reveal_strlit("2");
        reveal_strlit("3");
        reveal_strlit("4");
        reveal_strlit("5");
        reveal_strlit("6");
        reveal_strlit("7");
        reveal_strlit("8");
        reveal_strlit("9");
    }
    if d == 0 {
        "0"
    } else if d == 1 {
        "1"
    } else if d == 2 {
        "2"
    } else if d == 3 {
        "3"
    } else if d == 4 {
        "4"
    } else if d == 5 {
        "5"
    } else if d == 6 {
        "6"
    } else if d == 7 {
        "7"
    } else if d == 8 {
        "8"
    } else {
        "9"
    }
}

/// Appends the decimal digits of `n` to `s`.
fn append_decimal(s: &mut String, n: usize)
    ensures
        final(s)@ == old(s)@ + decimal(n as nat),
    decreases n,
{
    if n >= 10 {
        append_decimal(s, n / 10);
    }
    s.append(digit_str(n % 10));
    proof {
        if n >= 10 {
            assert(decimal(n as nat) == decimal((n / 10) as nat).push(digit_char((n % 10) as nat)));
        }
        assert(final(s)@ =~= old(s)@ + decimal(n as nat));
    }
}

/// The default name of the `n`-th player: "Player" and their number.
fn numbered_name(n: usize) -> (r: String)
    ensures
        r@ == "Player"@ + decimal(n as nat),
{
    let mut s = String::from_str("Player");
    append_decimal(&mut s, n);
    s
}

/// `p` is a player who just joined: id `id`, named "Player" and their
/// number `n`, colour `color`, in `body`, with no score, no effects, going
/// straight and not crashed.
pub open spec fn newcomer<B>(p: Player<B>, id: u16, n: nat, color: PlayerColor, body: B) -> bool {
    &&& p.id == id
    &&& p.name@ == "Player"@ + decimal(n)
    &&& p.color == color
    &&& p.effects@.len() == 0
    &&& !p.crashed
    &&& !p.just_crashed
    &&& p.score == 0
    &&& p.local_direction == crate::protocol::Direction::Straight
    &&& p.remote_direction == crate::protocol::Direction::Straight
    &&& p.body == body
}

/// `post` is `pre` after a newcomer with id `id`, colour `color` and body
/// `body` joined at the end, taking the next id.
pub open spec fn joined<B>(pre: World<B>, post: World<B>, id: u16, body: B, color: PlayerColor) -> bool {
    &&& id == pre.next_id
    &&& post.next_id == id.wrapping_add(1)
    &&& post.players@.len() == pre.players@.len() + 1
    &&& post.players@.drop_last() == pre.players@
    &&& newcomer(post.players@.last(), id, (pre.players@.len() + 1) as nat, color, body)
    &&& post.is_running == pre.is_running
    &&& post.clock == pre.clock
    &&& post.state == pre.state
    &&& post.effects == pre.effects
    &&& post.crash_feed == pre.crash_feed
}

/// A new world at `now`: two newcomers with ids 0 and 1 and different
/// colours in `first` and `second`, the round stopped, the clock at `now`
/// with no tick behind it, no effects and an empty crash feed.
pub open spec fn fresh_world<B>(w: World<B>, now: u64, first: B, second: B) -> bool {
    &&& w.players@.len() == 2
    &&& newcomer(w.players@[0], 0, 1, w.players@[0].color, first)
    &&& newcomer(w.players@[1], 1, 2, w.players@[1].color, second)
    &&& w.players@[1].color != w.players@[0].color
    &&& w.next_id == 2
    &&& w.is_running
    &&& w.clock.now == now
    &&& w.clock.frame_delta == 0
    &&& w.state == GameState::Stopped(now)
    &&& w.effects@.len() == 0
    &&& w.crash_feed@.len() == 0
}

/// Some player of `ps` has colour `c`.
pub open spec fn color_taken<B>(ps: Seq<Player<B>>, c: PlayerColor) -> bool {
    exists|i: int| 0 <= i < ps.len() && #[trigger] ps[i].color == c
}

/// The colours among the first `n` of the palette that no player of `ps`
/// has, in palette order.
pub open spec fn free_colors_below<B>(ps: Seq<Player<B>>, n: nat) -> Seq<PlayerColor>
    decreases n,
{
    if n == 0 {
        Seq::empty()
    } else {
        let rest = free_colors_below(ps, (n - 1) as nat);
        let c = PlayerColor::at((n - 1) as nat);
        if color_taken(ps, c) {
            rest
        } else {
            rest.push(c)
        }
    }
}

/// The colours that no player of `ps` has, in palette order.
pub open spec fn free_colors<B>(ps: Seq<Player<B>>) -> Seq<PlayerColor> {
    free_colors_below(ps, PLAYER_COLOR_COUNT as nat)
}

/// No colour listed free is taken.
proof fn lemma_free_colors_untaken<B>(ps: Seq<Player<B>>, n: nat, k: int)
    requires
        0 <= k < free_colors_below(ps, n).len(),
    ensures
        !color_taken(ps, free_colors_below(ps, n)[k]),
    decreases n,
{
    if n > 0 {
        let rest = free_colors_below(ps, (n - 1) as nat);
        if k < rest.len() {
            lemma_free_colors_untaken(ps, (n - 1) as nat, k);
        }
    }
}

/// A player joining takes at most one colour off the free ones below `n`.
proof fn lemma_free_below_step<B>(ps: Seq<Player<B>>, p: Player<B>, n: nat)
    requires
        n <= PLAYER_COLOR_COUNT,
    ensures
        free_colors_below(ps.push(p), n).len() + (if p.color.index() < n {
            1int
        } else {
            0int
        }) >= free_colors_below(ps, n).len(),
    decreases n,
{
    if n > 0 {
        lemma_free_below_step(ps, p, (n - 1) as nat);
        let c = PlayerColor::at((n - 1) as nat);
        let qs = ps.push(p);
        if color_taken(ps, c) {
            let i = choose|i: int| 0 <= i < ps.len() && #[trigger] ps[i].color == c;
            assert(qs[i].color == c);
        }
        if c == p.color {
            assert(qs[ps.len() as int].color == c);
        }
        if color_taken(qs, c) && c != p.color {
            let i = choose|i: int| 0 <= i < qs.len() && #[trigger] qs[i].color == c;
            assert(ps[i].color == c);
        }
        assert(c.index() == n - 1);
        assert(p.color.index() == n - 1 ==> c == p.color);
    }
}

/// At least as many colours are free as the palette has colours beyond the
/// number of players.
proof fn lemma_free_colors_left<B>(ps: Seq<Player<B>>)
    ensures
        free_colors(ps).len() + ps.len() >= PLAYER_COLOR_COUNT,
    decreases ps.len(),
{
    if ps.len() == 0 {
        lemma_free_colors_count(ps);
    } else {
        lemma_free_colors_left(ps.drop_last());
        lemma_free_below_step(ps.drop_last(), ps.last(), PLAYER_COLOR_COUNT as nat);
        assert(ps.drop_last().push(ps.last()) =~= ps);
    }
}

/// With no player every colour is free; with one, all but theirs.
proof fn lemma_free_colors_count<B>(ps: Seq<Player<B>>)
    requires
        ps.len() <= 1,
    ensures
        free_colors(ps).len() == PLAYER_COLOR_COUNT - ps.len(),
        ps.len() == 0 ==> forall|k: int|
            0 <= k < PLAYER_COLOR_COUNT ==> #[trigger] free_colors(ps)[k] == PlayerColor::at(k as nat),
{
    assert forall|c: PlayerColor| color_taken(ps, c) <==> (ps.len() == 1 && ps[0].color == c) by {
        if ps.len() == 1 && ps[0].color == c {
            assert(ps[0].color == c);
        }
    }
    reveal_with_fuel(free_colors_below, 9);
    if ps.len() == 0 {
        assert(free_colors(ps) =~= seq![
            PlayerColor::at(0),
            PlayerColor::at(1),
            PlayerColor::at(2),
            PlayerColor::at(3),
            PlayerColor::at(4),
            PlayerColor::at(5),
            PlayerColor::at(6),
            PlayerColor::at(7),
        ]);
    }
}

/// Why a player crashed, with the names and colours the crash feed shows.
pub enum CrashMessage {
    Own { name: String, color: PlayerColor },
    Wall { name: String, color: PlayerColor },
    Other {
        crashed_name: String,
        crashed_color: PlayerColor,
        other_name: String,
        other_color: PlayerColor,
    },
}

/// An entry of the crash feed.
pub struct Crash {
    pub time: u64,
    pub message: CrashMessage,
}

impl Crash {
    pub fn new(time: u64, message: CrashMessage) -> (r: Self)
        ensures
            r.time == time,
            r.message == message,
    {
        Crash { time, message }
    }
}

/// The arena: its players, effects, crash feed, clock and round state.
/// Each player's `body` holds what the host tracks in continuous space.
pub struct World<B> {
    /// The id the next added player gets.
    pub next_id: u16,
    /// Cleared when the host shuts the simulation down.
    pub is_running: bool,
    pub clock: Clock,
    pub state: GameState,
    pub effects: Vec<Effect<WorldEffect>>,
    pub players: Vec<Player<B>>,
    pub crash_feed: Vec<Crash>,
}

/// Number of players of `ps` that have not crashed, counting a crash of the
/// current tick.
pub open spec fn alive_count<B>(ps: Seq<Player<B>>) -> nat
    decreases ps.len(),
{
    if ps.len() == 0 {
        0
    } else {
        alive_count(ps.drop_last()) + if ps.last().just_crashed {
            0nat
        } else {
            1nat
        }
    }
}

/// A player after the crashes of a tick are committed; when `round_over`,
/// a survivor scores a point (the score stops at its largest value).
pub open spec fn committed<B>(p: Player<B>, round_over: bool) -> Player<B> {
    let crashed = p.crashed || p.just_crashed;
    Player {
        crashed,
        score: if round_over && !crashed && p.score < u16::MAX {
            (p.score + 1) as u16
        } else {
            p.score
        },
        ..p
    }
}

/// `post` is `pre` after the crashes of a tick are committed: in a running
/// round every crash of the tick becomes final at once, and when fewer than
/// two players are left alive each survivor scores a point and the round
/// stops, keeping its start time. In the other states nothing changes.
pub open spec fn tick_finished<B>(pre: World<B>, post: World<B>) -> bool {
    &&& match pre.state {
        GameState::Running(start) => {
            let over = alive_count(pre.players@) < 2;
            &&& post.players@.len() == pre.players@.len()
            &&& forall|i: int|
                0 <= i < pre.players@.len() ==> #[trigger] post.players@[i] == committed(
                    pre.players@[i],
                    over,
                )
            &&& post.state == if over {
                GameState::Stopped(start)
            } else {
                pre.state
            }
        },
        _ => post.players == pre.players && post.state == pre.state,
    }
    &&& post.next_id == pre.next_id
    &&& post.is_running == pre.is_running
    &&& post.clock == pre.clock
    &&& post.effects == pre.effects
    &&& post.crash_feed == pre.crash_feed
}

/// With two players of a running round, when one of them has crashed and the
/// other has not, finishing the tick gives the survivor exactly one more point
/// and stops the round.
pub proof fn lemma_round_termination<B>(pre: World<B>, post: World<B>, loser: int)
    requires
        tick_finished(pre, post),
        pre.state is Running,
        pre.players@.len() == 2,
        0 <= loser < 2,
        pre.players@[loser].just_crashed,
        !pre.players@[1 - loser].just_crashed,
        !pre.players@[1 - loser].crashed,
        pre.players@[1 - loser].score < u16::MAX,
    ensures
        post.state == GameState::Stopped(pre.state->Running_0),
        post.players@[1 - loser].score == pre.players@[1 - loser].score + 1,
        post.players@[loser].score == pre.players@[loser].score,
        post.players@[loser].crashed,
        !post.players@[1 - loser].crashed,
{
    let ps = pre.players@;
    assert(ps.drop_last().drop_last().len() == 0);
    assert(alive_count(ps) == 1) by {
        reveal_with_fuel(alive_count, 3);
        assert(ps.drop_last().last() == ps[0]);
    }
    assert(post.players@[loser] == committed(ps[loser], true));
    assert(post.players@[1 - loser] == committed(ps[1 - loser], true));
}

impl<B> World<B> {
    /// Hands out a fresh player id (after the largest, ids start again at 0).
    pub fn next_id(&mut self) -> (r: u16)
        ensures
            r == old(self).next_id,
            final(self).next_id == r.wrapping_add(1),
            final(self).is_running == old(self).is_running,
            final(self).clock == old(self).clock,
            final(self).state == old(self).state,
            final(self).effects == old(self).effects,
            final(self).players == old(self).players,
            final(self).crash_feed == old(self).crash_feed,
    {
        let id = self.next_id;
        self.next_id = id.wrapping_add(1);
        id
    }

    /// `post` is `self` with only the players' effects perhaps changed.
    pub open spec fn same_but_player_effects(&self, post: World<B>) -> bool {
        &&& post.players@.len() == self.players@.len()
        &&& forall|i: int|
            0 <= i < self.players@.len() ==> same_but_effects(
                self.players@[i],
                #[trigger] post.players@[i],
            )
        &&& post.next_id == self.next_id
        &&& post.is_running == self.is_running
        &&& post.clock == self.clock
        &&& post.state == self.state
        &&& post.crash_feed == self.crash_feed
    }

    /// Moves a starting round to running once the start delay has elapsed.
    pub fn advance_start(&mut self)
        ensures
            final(self).state == (match old(self).state {
                GameState::Starting(start) => if old(self).clock.now >= start + START_DELAY {
                    GameState::Running(old(self).clock.now)
                } else {
                    old(self).state
                },
                st => st,
            }),
            final(self).next_id == old(self).next_id,
            final(self).is_running == old(self).is_running,
            final(self).clock == old(self).clock,
            final(self).effects == old(self).effects,
            final(self).players == old(self).players,
            final(self).crash_feed == old(self).crash_feed,
    {
        if let GameState::Starting(start) = self.state {
            if (self.clock.now as u128) >= (start as u128) + (START_DELAY as u128) {
                self.state = GameState::Running(self.clock.now);
            }
        }
    }

    /// Drops every arena and player effect whose time is up, keeping the
    /// others in their order.
    pub fn expire_effects(&mut self)
        ensures
            old(self).same_but_player_effects(*final(self)),
            final(self).effects@ == active_only(old(self).effects@, old(self).clock.now),
            forall|i: int|
                0 <= i < old(self).players@.len() ==> (#[trigger] final(self).players@[i]).effects@
                    == active_only(old(self).players@[i].effects@, old(self).clock.now),
    {
        let now = self.clock.now;
        expire_effects(&mut self.effects, now);
        let n = self.players.len();
        let mut i: usize = 0;
        while i < n
            invariant
                n == old(self).players@.len(),
                i <= n,
                now == old(self).clock.now,
                old(self).same_but_player_effects(*self),
                self.effects@ == active_only(old(self).effects@, now),
                forall|j: int|
                    0 <= j < i ==> (#[trigger] self.players@[j]).effects@ == active_only(
                        old(self).players@[j].effects@,
                        now,
                    ),
                forall|j: int| i <= j < n ==> #[trigger] self.players@[j] == old(self).players@[j],
            decreases n - i,
        {
            expire_effects(&mut self.players[i].effects, now);
            i = i + 1;
        }
    }

    /// Opens a random gap in the trail of player `pi` when they are still in
    /// the round, leave no gap yet, are not protected from gaps, and `roll`
    /// hits; `deviate` lengthens the gap.
    pub fn maybe_add_gap(&mut self, pi: usize, roll: u64, deviate: bool)
        requires
            pi < old(self).players@.len(),
        ensures
            old(self).same_but_player_effects(*final(self)),
            final(self).effects == old(self).effects,
            forall|j: int|
                0 <= j < old(self).players@.len() && j != pi ==> #[trigger] final(self).players@[j]
                    == old(self).players@[j],
            ({
                let p = old(self).players@[pi as int];
                final(self).players@[pi as int].effects@ == if !p.crashed && !has_gap(p.effects@)
                    && !crate::effect::has_no_gap(p.effects@) && roll_hits(
                    old(self).clock.frame_delta,
                    GAP_RATE,
                    roll,
                ) {
                    p.effects@.push(spec_gap_effect(old(self).clock.now, deviate))
                } else {
                    p.effects@
                }
            }),
    {
        let now = self.clock.now;
        let hit = roll_succeeds(self.clock.frame_delta, GAP_RATE, roll);
        if !self.players[pi].crashed && !self.players[pi].gap() && !self.players[pi].no_gap() && hit {
            self.players[pi].effects.push(gap_effect(now, deviate));
        }
    }

    /// Records the crashes of player `pi` in one tick: `wall` when they left
    /// the arena, `own` when they ran into their own trail, `other` the first
    /// player whose trail they ran into. Each adds an entry to the crash feed
    /// and marks the player as crashed in this tick.
    pub fn register_hits(&mut self, pi: usize, wall: bool, own: bool, other: Option<usize>)
        requires
            pi < old(self).players@.len(),
            other matches Some(o) ==> o < old(self).players@.len() && o != pi,
        ensures
            ({
                let entries = crash_entries(*old(self), pi as int, wall, own, other);
                &&& final(self).crash_feed@ == old(self).crash_feed@ + entries
                &&& final(self).players@[pi as int] == Player {
                    just_crashed: old(self).players@[pi as int].just_crashed || entries.len() > 0,
                    ..old(self).players@[pi as int]
                }
            }),
            final(self).players@.len() == old(self).players@.len(),
            forall|j: int|
                0 <= j < old(self).players@.len() && j != pi ==> #[trigger] final(self).players@[j]
                    == old(self).players@[j],
            final(self).next_id == old(self).next_id,
            final(self).is_running == old(self).is_running,
            final(self).clock == old(self).clock,
            final(self).state == old(self).state,
            final(self).effects == old(self).effects,
    {
        if self.players[pi].crashed {
            return;
        }
        let now = self.clock.now;
        let color = self.players[pi].color;
        let mut crashed = false;
        if wall {
            let name = self.players[pi].name.clone();
            self.crash_feed.push(Crash::new(now, CrashMessage::Wall { name, color }));
            crashed = true;
        }
        if !self.players[pi].gap() {
            if own {
                let name = self.players[pi].name.clone();
                self.crash_feed.push(Crash::new(now, CrashMessage::Own { name, color }));
                crashed = true;
            }
            if let Some(o) = other {
                let crashed_name = self.players[pi].name.clone();
                let other_name = self.players[o].name.clone();
                let other_color = self.players[o].color;
                self.crash_feed.push(
                    Crash::new(
                        now,
                        CrashMessage::Other {
                            crashed_name,
                            crashed_color: color,
                            other_name,
                            other_color,
                        },
                    ),
                );
                crashed = true;
            }
        }
        if crashed {
            self.players[pi].just_crashed = true;
        }
        proof {
            let entries = crash_entries(*old(self), pi as int, wall, own, other);
            assert(self.crash_feed@ =~= old(self).crash_feed@ + entries);
        }
    }

    /// Applies an item of kind `kind` collected by player `pi`: a player item
    /// changes their effects, a wall-teleporting item adds an arena effect,
    /// and a clear item changes nothing here but returns true, since every
    /// trail is to be cleared once all players are processed. `deviate`
    /// lengthens the effect.
    pub fn collect_item(&mut self, pi: usize, kind: ItemKind, deviate: bool) -> (r: bool)
        requires
            pi < old(self).players@.len(),
        ensures
            r == (kind == ItemKind::Clear),
            old(self).same_but_player_effects(*final(self)),
            forall|j: int|
                0 <= j < old(self).players@.len() && j != pi ==> #[trigger] final(self).players@[j]
                    == old(self).players@[j],
            item_collected(*old(self), *final(self), pi as int, kind, deviate),
    {
        let now = self.clock.now;
        match kind {
            ItemKind::WallTeleporting => {
                self.effects.push(world_effect(now, WorldEffect::WallTeleporting, deviate));
                false
            },
            ItemKind::Clear => true,
            _ => {
                apply_player_item(&mut self.players[pi].effects, kind, now, deviate);
                false
            },
        }
    }

    /// The colours that no player has, in palette order.
    pub fn free_colors(&self) -> (r: Vec<PlayerColor>)
        ensures
            r@ == free_colors(self.players@),
    {
        let mut r: Vec<PlayerColor> = Vec::new();
        let mut c: usize = 0;
        while c < PLAYER_COLOR_COUNT
            invariant
                c <= PLAYER_COLOR_COUNT,
                r@ == free_colors_below(self.players@, c as nat),
            decreases PLAYER_COLOR_COUNT - c,
        {
            let color = PlayerColor::from_index(c);
            let mut taken = false;
            let mut i: usize = 0;
            while i < self.players.len()
                invariant
                    i <= self.players@.len(),
                    taken == (exists|j: int| 0 <= j < i && #[trigger] self.players@[j].color == color),
                decreases self.players@.len() - i,
            {
                if self.players[i].color == color {
                    taken = true;
                }
                i = i + 1;
            }
            if !taken {
                r.push(color);
            }
            c = c + 1;
        }
        r
    }

    /// Adds a player with the next id, the name "Player" and their number,
    /// and the free colour at position `color_roll` of `free_colors`. Does
    /// nothing when the palette is used up or the position is past its end.
    pub fn add_player_with(&mut self, body: B, color_roll: usize) -> (r: Option<u16>)
        ensures
            r is Some <==> (old(self).players@.len() < PLAYER_COLOR_COUNT && color_roll < free_colors(
                old(self).players@,
            ).len()),
            r is None ==> *final(self) == *old(self),
            r matches Some(id) ==> joined(
                *old(self),
                *final(self),
                id,
                body,
                free_colors(old(self).players@)[color_roll as int],
            ),
    {
        if self.players.len() >= PLAYER_COLOR_COUNT {
            return None;
        }
        let free = self.free_colors();
        if color_roll >= free.len() {
            return None;
        }
        let color = free[color_roll];
        let id = self.next_id();
        let name = numbered_name(self.players.len() + 1);
        self.players.push(Player::new(id, name, color, body));
        proof {
            assert(self.players@.drop_last() =~= old(self).players@);
        }
        Some(id)
    }

    /// Adds a player as `add_player_with` does, with a free colour drawn at
    /// random; returns their id, or none when the palette is used up.
    pub fn add_player(&mut self, body: B) -> (r: Option<u16>)
        ensures
            r is Some <==> old(self).players@.len() < PLAYER_COLOR_COUNT,
            r is None ==> *final(self) == *old(self),
            r matches Some(id) ==> {
                let c = final(self).players@.last().color;
                &&& joined(*old(self), *final(self), id, body, c)
                &&& !color_taken(old(self).players@, c)
            },
    {
        if self.players.len() >= PLAYER_COLOR_COUNT {
            return None;
        }
        let free = self.free_colors();
        proof {
            lemma_free_colors_left(self.players@);
        }
        let roll = crate::random::random_below(free.len() as u64) as usize;
        let r = self.add_player_with(body, roll);
        proof {
            lemma_free_colors_untaken(old(self).players@, PLAYER_COLOR_COUNT as nat, roll as int);
        }
        r
    }

    /// A world with two players, "Player1" and "Player2" with ids 0 and 1,
    /// whose colours are the free colours at positions `first_roll` and
    /// `second_roll` when each joins; the round is stopped at `now`.
    pub fn with_color_rolls(now: u64, first: B, second: B, first_roll: usize, second_roll: usize) -> (r: Self)
        requires
            first_roll < PLAYER_COLOR_COUNT,
            second_roll < PLAYER_COLOR_COUNT - 1,
        ensures
            fresh_world(r, now, first, second),
            r.players@[0].color == PlayerColor::at(first_roll as nat),
    {
        let mut w = World {
            next_id: 0,
            is_running: true,
            clock: Clock::new(now),
            state: GameState::Stopped(now),
            effects: Vec::new(),
            players: Vec::new(),
            crash_feed: Vec::new(),
        };
        proof {
            lemma_free_colors_count(w.players@);
        }
        let ghost w0 = w;
        let a = w.add_player_with(first, first_roll);
        proof {
            lemma_free_colors_count(w.players@);
        }
        let b = w.add_player_with(second, second_roll);
        proof {
            lemma_free_colors_untaken(w.players@.drop_last(), PLAYER_COLOR_COUNT as nat, second_roll as int);
            assert(w.players@.drop_last()[0] == w.players@[0]);
            assert(w.players@.drop_last().drop_last() =~= w0.players@);
        }
        w
    }

    /// A world with two players as `with_color_rolls` makes, with colours
    /// drawn at random.
    pub fn new(now: u64, first: B, second: B) -> (r: Self)
        ensures
            fresh_world(r, now, first, second),
    {
        let first_roll = crate::random::random_below(PLAYER_COLOR_COUNT as u64) as usize;
        let second_roll = crate::random::random_below((PLAYER_COLOR_COUNT - 1) as u64) as usize;
        World::with_color_rolls(now, first, second, first_roll, second_roll)
    }

    /// Starts a new round when the current one is stopped: the round starts
    /// now, arena effects and the crash feed are cleared, and player `i` is
    /// reset into `bodies[i]`, keeping name, colour and score. Returns whether
    /// it did; in the other states nothing changes.
    pub fn restart(&mut self, bodies: Vec<B>) -> (r: bool)
        requires
            bodies@.len() == old(self).players@.len(),
        ensures
            r == old(self).state is Stopped,
            !r ==> *final(self) == *old(self),
            r ==> {
                &&& final(self).state == GameState::Starting(old(self).clock.now)
                &&& final(self).effects@.len() == 0
                &&& final(self).crash_feed@.len() == 0
                &&& final(self).players@.len() == old(self).players@.len()
                &&& forall|i: int|
                    0 <= i < old(self).players@.len() ==> {
                        let p = #[trigger] final(self).players@[i];
                        let q = old(self).players@[i];
                        &&& p.id == q.id
                        &&& p.name == q.name
                        &&& p.color == q.color
                        &&& p.score == q.score
                        &&& p.effects@.len() == 0
                        &&& p.local_direction == crate::protocol::Direction::Straight
                        &&& p.remote_direction == crate::protocol::Direction::Straight
                        &&& !p.just_crashed
                        &&& !p.crashed
                        &&& p.body == bodies@[i]
                    }
                &&& final(self).next_id == old(self).next_id
                &&& final(self).is_running == old(self).is_running
                &&& final(self).clock == old(self).clock
            },
    {
        if !matches!(self.state, GameState::Stopped(_)) {
            return false;
        }
        self.state = GameState::Starting(self.clock.now);
        self.effects.clear();
        self.crash_feed.clear();
        let ghost all = bodies@;
        let mut bodies = bodies;
        let mut i: usize = self.players.len();
        while i > 0
            invariant
                i <= old(self).players@.len(),
                self.players@.len() == old(self).players@.len(),
                bodies@ == all.take(i as int),
                all.len() == old(self).players@.len(),
                forall|j: int| 0 <= j < i ==> #[trigger] self.players@[j] == old(self).players@[j],
                forall|j: int|
                    i <= j < old(self).players@.len() ==> {
                        let p = #[trigger] self.players@[j];
                        let q = old(self).players@[j];
                        &&& p.id == q.id
                        &&& p.name == q.name
                        &&& p.color == q.color
                        &&& p.score == q.score
                        &&& p.effects@.len() == 0
                        &&& p.local_direction == crate::protocol::Direction::Straight
                        &&& p.remote_direction == crate::protocol::Direction::Straight
                        &&& !p.just_crashed
                        &&& !p.crashed
                        &&& p.body == all[j]
                    },
                self.state == GameState::Starting(old(self).clock.now),
                self.effects@.len() == 0,
                self.crash_feed@.len() == 0,
                self.next_id == old(self).next_id,
                self.is_running == old(self).is_running,
                self.clock == old(self).clock,
            decreases i,
        {
            i = i - 1;
            let body = bodies.pop().unwrap();
            proof {
                assert(all.take(i as int + 1).last() == all[i as int]);
                assert(all.take(i as int + 1).drop_last() =~= all.take(i as int));
            }
            self.players[i].reset(body);
        }
        true
    }

    /// Opens a random gap in the trail of player `pi` as `maybe_add_gap`
    /// does, with the roll and the lengthening drawn at random.
    pub fn roll_gap(&mut self, pi: usize)
        requires
            pi < old(self).players@.len(),
        ensures
            old(self).same_but_player_effects(*final(self)),
            final(self).effects == old(self).effects,
            forall|j: int|
                0 <= j < old(self).players@.len() && j != pi ==> #[trigger] final(self).players@[j]
                    == old(self).players@[j],
            ({
                let before = old(self).players@[pi as int].effects@;
                let after = final(self).players@[pi as int].effects@;
                let now = old(self).clock.now;
                after == before || after == before.push(spec_gap_effect(now, false)) || after
                    == before.push(spec_gap_effect(now, true))
            }),
            ({
                let p = old(self).players@[pi as int];
                (p.crashed || has_gap(p.effects@) || crate::effect::has_no_gap(p.effects@) || old(
                    self,
                ).clock.frame_delta == 0) ==> final(self).players@[pi as int].effects@ == p.effects@
            }),
    {
        let roll = crate::random::random_below(ROLL_RANGE);
        let deviate = crate::random::random_below(2) == 1;
        self.maybe_add_gap(pi, roll, deviate);
    }

    /// Applies an item collected by player `pi` as `collect_item` does, with
    /// the lengthening of its effect drawn at random.
    pub fn pick_up(&mut self, pi: usize, kind: ItemKind) -> (r: bool)
        requires
            pi < old(self).players@.len(),
        ensures
            r == (kind == ItemKind::Clear),
            old(self).same_but_player_effects(*final(self)),
            forall|j: int|
                0 <= j < old(self).players@.len() && j != pi ==> #[trigger] final(self).players@[j]
                    == old(self).players@[j],
            item_collected(*old(self), *final(self), pi as int, kind, true) || item_collected(
                *old(self),
                *final(self),
                pi as int,
                kind,
                false,
            ),
    {
        let deviate = crate::random::random_below(2) == 1;
        self.collect_item(pi, kind, deviate)
    }

    /// The players whose trails player `pi` can run into this tick, in index
    /// order: every other player who was still in the round when the tick
    /// began.
    pub fn collidable_others(&self, pi: usize) -> (r: Vec<usize>)
        ensures
            forall|k: int| 0 <= k < r@.len() ==> #[trigger] r@[k] < self.players@.len(),
            forall|k: int, l: int| 0 <= k < l < r@.len() ==> r@[k] < r@[l],
            forall|j: int|
                0 <= j < self.players@.len() ==> (r@.contains(j as usize) <==> (j != pi
                    && !(#[trigger] self.players@[j]).crashed)),
    {
        let mut r: Vec<usize> = Vec::new();
        let mut j: usize = 0;
        while j < self.players.len()
            invariant
                j <= self.players@.len(),
                forall|k: int| 0 <= k < r@.len() ==> #[trigger] r@[k] < j,
                forall|k: int, l: int| 0 <= k < l < r@.len() ==> r@[k] < r@[l],
                forall|i: int|
                    0 <= i < j ==> (r@.contains(i as usize) <==> (i != pi
                        && !(#[trigger] self.players@[i]).crashed)),
            decreases self.players@.len() - j,
        {
            let ghost before = r@;
            let takes = j != pi && !self.players[j].crashed;
            if takes {
                r.push(j);
            }
            proof {
                assert forall|i: int| 0 <= i <= j implies (r@.contains(i as usize) <==> (i != pi
                    && !(#[trigger] self.players@[i]).crashed)) by {
                    if r@.contains(i as usize) {
                        let k = choose|k: int| 0 <= k < r@.len() && r@[k] == i as usize;
                        if k < before.len() {
                            assert(before[k] == i as usize);
                            assert(before.contains(i as usize));
                        }
                    }
                    if i < j && before.contains(i as usize) {
                        let k = choose|k: int| 0 <= k < before.len() && before[k] == i as usize;
                        assert(r@[k] == i as usize);
                    }
                    if i == j && takes {
                        assert(r@[before.len() as int] == j);
                    }
                }
            }
            j = j + 1;
        }
        r
    }

    /// Whether players pass through the walls now.
    pub fn wall_teleporting(&self) -> (r: bool)
        ensures
            r == crate::effect::has_wall_teleporting(self.effects@),
    {
        crate::effect::wall_teleporting(&self.effects)
    }

    /// Pauses a running round, or resumes a paused one with the same start
    /// time; does nothing in the other states.
    pub fn toggle_pause(&mut self)
        ensures
            final(self).state == (match old(self).state {
                GameState::Running(s) => GameState::Paused(s),
                GameState::Paused(s) => GameState::Running(s),
                st => st,
            }),
            final(self).next_id == old(self).next_id,
            final(self).is_running == old(self).is_running,
            final(self).clock == old(self).clock,
            final(self).effects == old(self).effects,
            final(self).players == old(self).players,
            final(self).crash_feed == old(self).crash_feed,
    {
        match self.state {
            GameState::Running(s) => self.state = GameState::Paused(s),
            GameState::Paused(s) => self.state = GameState::Running(s),
            _ => {},
        }
    }

    /// Removes the player at `idx`, unless only `MIN_PLAYERS` are left or
    /// there is no such player.
    pub fn remove_player(&mut self, idx: usize)
        ensures
            final(self).players@ == if old(self).players@.len() > MIN_PLAYERS && idx < old(
                self,
            ).players@.len() {
                old(self).players@.remove(idx as int)
            } else {
                old(self).players@
            },
            final(self).next_id == old(self).next_id,
            final(self).is_running == old(self).is_running,
            final(self).clock == old(self).clock,
            final(self).state == old(self).state,
            final(self).effects == old(self).effects,
            final(self).crash_feed == old(self).crash_feed,
    {
        if self.players.len() > MIN_PLAYERS && idx < self.players.len() {
            self.players.remove(idx);
        }
    }

    /// Ends a tick of a running round: every crash of the tick becomes final
    /// at once, and when fewer than two players are left alive each survivor
    /// scores a point and the round stops, keeping its start time. Does
    /// nothing in the other states.
    pub fn finish_tick(&mut self)
        ensures
            tick_finished(*old(self), *final(self)),
    {
        let start = match self.state {
            GameState::Running(start) => start,
            _ => {
                return;
            },
        };
        let n = self.players.len();
        let mut alive: usize = 0;
        let mut i: usize = 0;
        while i < n
            invariant
                n == old(self).players@.len(),
                self.players@.len() == n,
                i <= n,
                alive == alive_count(old(self).players@.take(i as int)),
                alive <= i,
                forall|j: int|
                    0 <= j < i ==> #[trigger] self.players@[j] == committed(
                        old(self).players@[j],
                        false,
                    ),
                forall|j: int| i <= j < n ==> #[trigger] self.players@[j] == old(self).players@[j],
                self.next_id == old(self).next_id,
                self.is_running == old(self).is_running,
                self.clock == old(self).clock,
                self.state == old(self).state,
                self.effects == old(self).effects,
                self.crash_feed == old(self).crash_feed,
            decreases n - i,
        {
            proof {
                assert(old(self).players@.take(i as int + 1).drop_last() == old(
                    self,
                ).players@.take(i as int));
            }
            if self.players[i].just_crashed {
                self.players[i].crashed = true;
            } else {
                alive = alive + 1;
            }
            i = i + 1;
        }
        proof {
            assert(old(self).players@.take(n as int) == old(self).players@);
        }
        if alive < 2 {
            let mut k: usize = 0;
            while k < n
                invariant
                    n == old(self).players@.len(),
                    self.players@.len() == n,
                    k <= n,
                    forall|j: int|
                        0 <= j < k ==> #[trigger] self.players@[j] == committed(
                            old(self).players@[j],
                            true,
                        ),
                    forall|j: int|
                        k <= j < n ==> #[trigger] self.players@[j] == committed(
                            old(self).players@[j],
                            false,
                        ),
                    self.next_id == old(self).next_id,
                    self.is_running == old(self).is_running,
                    self.clock == old(self).clock,
                    self.state == old(self).state,
                    self.effects == old(self).effects,
                    self.crash_feed == old(self).crash_feed,
                decreases n - k,
            {
                if !self.players[k].crashed {
                    self.players[k].score = self.players[k].score.saturating_add(1);
                }
                k = k + 1;
            }
            self.state = GameState::Stopped(start);
        }
    }
}

} // verus!
