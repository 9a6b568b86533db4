use vstd::prelude::*;

use crate::item::ItemKind;

verus! {

/// Nanoseconds in one second.
pub const NANOS_PER_SEC: u64 = 1_000_000_000;

/// Base lifetime of an effect granted by an item to a player.
pub const PLAYER_EFFECT_DURATION: u64 = 5 * NANOS_PER_SEC;

/// Extra lifetime a player effect gets when its jitter is drawn.
pub const PLAYER_EFFECT_DEVIATION_DURATION: u64 = NANOS_PER_SEC;

/// Base lifetime of a random trail gap.
pub const GAP_EFFECT_DURATION: u64 = 150_000_000;

/// Extra lifetime a trail gap gets when its jitter is drawn.
pub const GAP_EFFECT_DEVIATION_DURATION: u64 = 100_000_000;

/// Base lifetime of an effect on the whole arena.
pub const WORLD_EFFECT_DURATION: u64 = 10 * NANOS_PER_SEC;

/// Extra lifetime an arena effect gets when its jitter is drawn.
pub const WORLD_EFFECT_DEVIATION_DURATION: u64 = 3 * NANOS_PER_SEC;

pub const BASE_SPEED: i32 = 150;
pub const MIN_SPEED: i32 = 50;
pub const BASE_THICKNESS: i32 = 4;
pub const MIN_THICKNESS: i32 = 1;
pub const BASE_TURNING_RADIUS: i32 = 50;
pub const MIN_TURNING_RADIUS: i32 = 25;

/// Change of speed granted by a speed-up item (a slow-down takes it off).
pub const SPEED_DELTA: i32 = 50;

/// Change of turning radius granted by a slow-turning item (a fast-turning
/// item takes it off).
pub const TURNING_DELTA: i32 = 20;

/// Change of thickness granted by an expand item.
pub const EXPAND_DELTA: i32 = 4;

/// Change of thickness taken off by a shrink item.
pub const SHRINK_DELTA: i32 = 2;

/// A modifier that holds from `start` for `duration` nanoseconds.
#[derive(Clone, Copy, Debug, PartialEq, Eq)]
pub struct Effect<T> {
    pub start: u64,
    pub duration: u64,
    pub kind: T,
}

/// What an effect does to a single player. The deltas are in world units
/// (per second for speed).
#[derive(Clone, Copy, Debug, PartialEq, Eq, Structural)]
pub enum PlayerEffect {
    Size(i32),
    Speed(i32),
    Turning(i32),
    Ghosting,
    NoGap,
    Gap,
}

/// What an effect does to the whole arena.
#[derive(Clone, Copy, Debug, PartialEq, Eq, Structural)]
pub enum WorldEffect {
    WallTeleporting,
}

impl<T> Effect<T> {
    /// The effect is still in force at time `now`.
    pub open spec fn active_at(self, now: u64) -> bool {
        self.start + self.duration > now
    }

    pub fn is_active(&self, now: u64) -> (r: bool)
        ensures
            r == self.active_at(now),
    {
        (self.start as u128) + (self.duration as u128) > now as u128
    }
}

/// The effects of `s` that are still in force at `now`, in their order.
pub open spec fn active_only<T>(s: Seq<Effect<T>>, now: u64) -> Seq<Effect<T>>
    decreases s.len(),
{
    if s.len() == 0 {
        s
    } else {
        let rest = active_only(s.drop_last(), now);
        if s.last().active_at(now) {
            rest.push(s.last())
        } else {
            rest
        }
    }
}

/// Removes every effect whose time is up (`start + duration <= now`) and
/// keeps the others in their order.
pub fn expire_effects<T: Copy>(effects: &mut Vec<Effect<T>>, now: u64)
    ensures
        final(effects)@ == active_only(old(effects)@, now),
{
    let mut kept: Vec<Effect<T>> = Vec::new();
    let mut i: usize = 0;
    while i < effects.len()
        invariant
            i <= effects@.len(),
            effects@ == old(effects)@,
            kept@ == active_only(effects@.take(i as int), now),
        decreases effects@.len() - i,
    {
        let e = effects[i];
        proof {
            assert(effects@.take(i as int + 1).drop_last() == effects@.take(i as int));
        }
        if e.is_active(now) {
            kept.push(e);
        }
        i = i + 1;
    }
    proof {
        assert(effects@.take(i as int) == effects@);
    }
    *effects = kept;
}

/// After expiry at `now`, an effect is in the list exactly when it was in it
/// before and its time is not up (`start + duration > now`).
pub proof fn lemma_expiry<T>(s: Seq<Effect<T>>, now: u64)
    ensures
        forall|e: Effect<T>| active_only(s, now).contains(e) <==> (s.contains(e) && e.active_at(now)),
    decreases s.len(),
{
    if s.len() > 0 {
        lemma_expiry(s.drop_last(), now);
        assert(s == s.drop_last().push(s.last()));
        assert forall|e: Effect<T>| s.contains(e) <==> (s.drop_last().contains(e) || e == s.last()) by {
            if s.contains(e) {
                let k = choose|k: int| 0 <= k < s.len() && s[k] == e;
                if k < s.len() - 1 {
                    assert(s.drop_last()[k] == e);
                }
            }
            if s.drop_last().contains(e) {
                let k = choose|k: int| 0 <= k < s.drop_last().len() && s.drop_last()[k] == e;
                assert(s[k] == e);
            }
        }
        let rest = active_only(s.drop_last(), now);
        if s.last().active_at(now) {
            assert forall|e: Effect<T>| rest.push(s.last()).contains(e) <==> (rest.contains(e) || e == s.last()) by {
                if rest.push(s.last()).contains(e) {
                    let k = choose|k: int| 0 <= k < rest.push(s.last()).len() && rest.push(s.last())[k] == e;
                    if k < rest.len() {
                        assert(rest[k] == e);
                    }
                }
                if rest.contains(e) {
                    let k = choose|k: int| 0 <= k < rest.len() && rest[k] == e;
                    assert(rest.push(s.last())[k] == e);
                }
                if e == s.last() {
                    assert(rest.push(s.last())[rest.len() as int] == e);
                }
            }
        }
    }
}

/// Which attribute a delta applies to.
#[derive(Clone, Copy, Debug, PartialEq, Eq, Structural)]
pub enum Attribute {
    Size,
    Speed,
    Turning,
}

impl PlayerEffect {
    /// The delta this effect adds to `a`, zero if it does not touch it.
    pub open spec fn delta(self, a: Attribute) -> int {
        match (self, a) {
            (PlayerEffect::Size(d), Attribute::Size) => d as int,
            (PlayerEffect::Speed(d), Attribute::Speed) => d as int,
            (PlayerEffect::Turning(d), Attribute::Turning) => d as int,
            _ => 0,
        }
    }

    /// The item that grants this effect; a random gap comes from no item.
    pub open spec fn spec_item_kind(self) -> Option<ItemKind> {
        match self {
            PlayerEffect::Size(s) => Some(if s < 0 { ItemKind::Shrink } else { ItemKind::Expand }),
            PlayerEffect::Speed(s) => Some(if s < 0 { ItemKind::Slowdown } else { ItemKind::Speedup }),
            PlayerEffect::Turning(r) => Some(
                if r < 0 { ItemKind::FastTurning } else { ItemKind::SlowTurning },
            ),
            PlayerEffect::Ghosting => Some(ItemKind::Ghosting),
            PlayerEffect::NoGap => Some(ItemKind::NoGap),
            PlayerEffect::Gap => None,
        }
    }

    pub fn item_kind(&self) -> (r: Option<ItemKind>)
        ensures
            r == self.spec_item_kind(),
    {
        match self {
            PlayerEffect::Size(s) => Some(if *s < 0 { ItemKind::Shrink } else { ItemKind::Expand }),
            PlayerEffect::Speed(s) => Some(if *s < 0 { ItemKind::Slowdown } else { ItemKind::Speedup }),
            PlayerEffect::Turning(r) => Some(
                if *r < 0 { ItemKind::FastTurning } else { ItemKind::SlowTurning },
            ),
            PlayerEffect::Ghosting => Some(ItemKind::Ghosting),
            PlayerEffect::NoGap => Some(ItemKind::NoGap),
            PlayerEffect::Gap => None,
        }
    }

    /// The effect leaves no solid trail.
    pub open spec fn makes_gap(self) -> bool {
        self == PlayerEffect::Gap || self == PlayerEffect::Ghosting
    }
}

/// Sum of the deltas that the effects of `s` add to `a`.
pub open spec fn delta_sum(s: Seq<Effect<PlayerEffect>>, a: Attribute) -> int
    decreases s.len(),
{
    if s.len() == 0 {
        0
    } else {
        delta_sum(s.drop_last(), a) + s.last().kind.delta(a)
    }
}

/// Base value of an attribute.
pub open spec fn base_of(a: Attribute) -> int {
    match a {
        Attribute::Size => BASE_THICKNESS as int,
        Attribute::Speed => BASE_SPEED as int,
        Attribute::Turning => BASE_TURNING_RADIUS as int,
    }
}

/// Floor of an attribute.
pub open spec fn min_of(a: Attribute) -> int {
    match a {
        Attribute::Size => MIN_THICKNESS as int,
        Attribute::Speed => MIN_SPEED as int,
        Attribute::Turning => MIN_TURNING_RADIUS as int,
    }
}

/// Value of an attribute under the effects of `s`: its base plus the sum of
/// the matching deltas, but never below its floor.
pub open spec fn attribute_value(s: Seq<Effect<PlayerEffect>>, a: Attribute) -> int {
    let v = base_of(a) + delta_sum(s, a);
    if v < min_of(a) {
        min_of(a)
    } else {
        v
    }
}

/// Some effect of `s` leaves a gap in the trail.
pub open spec fn has_gap(s: Seq<Effect<PlayerEffect>>) -> bool {
    exists|i: int| 0 <= i < s.len() && #[trigger] s[i].kind.makes_gap()
}

/// Some effect of `s` keeps random gaps away.
pub open spec fn has_no_gap(s: Seq<Effect<PlayerEffect>>) -> bool {
    exists|i: int| 0 <= i < s.len() && #[trigger] s[i].kind == PlayerEffect::NoGap
}

/// Some effect of `s` lets players pass through the walls.
pub open spec fn has_wall_teleporting(s: Seq<Effect<WorldEffect>>) -> bool {
    exists|i: int| 0 <= i < s.len() && #[trigger] s[i].kind == WorldEffect::WallTeleporting
}

/// Value of attribute `a` under `effects`.
pub fn attribute(effects: &Vec<Effect<PlayerEffect>>, a: Attribute) -> (r: i128)
    ensures
        r as int == attribute_value(effects@, a),
{
    let mut sum: i128 = 0;
    let mut i: usize = 0;
    while i < effects.len()
        invariant
            i <= effects@.len(),
            sum as int == delta_sum(effects@.take(i as int), a),
            -(i as int) * 0x8000_0000 <= sum <= (i as int) * 0x8000_0000,
        decreases effects@.len() - i,
    {
        proof {
            assert(effects@.take(i as int + 1).drop_last() == effects@.take(i as int));
        }
        let d: i32 = match (effects[i].kind, a) {
            (PlayerEffect::Size(d), Attribute::Size) => d,
            (PlayerEffect::Speed(d), Attribute::Speed) => d,
            (PlayerEffect::Turning(d), Attribute::Turning) => d,
            _ => 0,
        };
        sum = sum + d as i128;
        i = i + 1;
    }
    proof {
        assert(effects@.take(i as int) == effects@);
    }
    let (base, min): (i32, i32) = match a {
        Attribute::Size => (BASE_THICKNESS, MIN_THICKNESS),
        Attribute::Speed => (BASE_SPEED, MIN_SPEED),
        Attribute::Turning => (BASE_TURNING_RADIUS, MIN_TURNING_RADIUS),
    };
    let v = base as i128 + sum;
    if v < min as i128 {
        min as i128
    } else {
        v
    }
}

/// Whether some effect of the list leaves a gap in the trail.
pub fn gap(effects: &Vec<Effect<PlayerEffect>>) -> (r: bool)
    ensures
        r == has_gap(effects@),
{
    let mut i: usize = 0;
    while i < effects.len()
        invariant
            i <= effects@.len(),
            forall|j: int| 0 <= j < i ==> !(#[trigger] effects@[j]).kind.makes_gap(),
        decreases effects@.len() - i,
    {
        let k = effects[i].kind;
        if k == PlayerEffect::Gap || k == PlayerEffect::Ghosting {
            assert(effects@[i as int].kind.makes_gap());
            return true;
        }
        i = i + 1;
    }
    false
}

/// Whether some effect of the list keeps random gaps away.
pub fn no_gap(effects: &Vec<Effect<PlayerEffect>>) -> (r: bool)
    ensures
        r == has_no_gap(effects@),
{
    let mut i: usize = 0;
    while i < effects.len()
        invariant
            i <= effects@.len(),
            forall|j: int| 0 <= j < i ==> (#[trigger] effects@[j]).kind != PlayerEffect::NoGap,
        decreases effects@.len() - i,
    {
        if effects[i].kind == PlayerEffect::NoGap {
            return true;
        }
        i = i + 1;
    }
    false
}

/// Whether some effect of the list lets players pass through the walls.
pub fn wall_teleporting(effects: &Vec<Effect<WorldEffect>>) -> (r: bool)
    ensures
        r == has_wall_teleporting(effects@),
{
    let mut i: usize = 0;
    while i < effects.len()
        invariant
            i <= effects@.len(),
            forall|j: int| 0 <= j < i ==> (#[trigger] effects@[j]).kind != WorldEffect::WallTeleporting,
        decreases effects@.len() - i,
    {
        if effects[i].kind == WorldEffect::WallTeleporting {
            return true;
        }
        i = i + 1;
    }
    false
}

/// The effects of `s` of any kind but `k`, in their order.
pub open spec fn without_kind(s: Seq<Effect<PlayerEffect>>, k: PlayerEffect) -> Seq<Effect<PlayerEffect>>
    decreases s.len(),
{
    if s.len() == 0 {
        s
    } else {
        let rest = without_kind(s.drop_last(), k);
        if s.last().kind != k {
            rest.push(s.last())
        } else {
            rest
        }
    }
}

/// No effect of kind `k` is left after `without_kind`, and every other
/// effect of the list is kept.
pub proof fn lemma_without_kind(s: Seq<Effect<PlayerEffect>>, k: PlayerEffect)
    ensures
        forall|i: int| 0 <= i < without_kind(s, k).len() ==> #[trigger] without_kind(s, k)[i].kind != k,
        forall|i: int| 0 <= i < s.len() && s[i].kind != k ==> without_kind(s, k).contains(#[trigger] s[i]),
    decreases s.len(),
{
    if s.len() > 0 {
        let rest = without_kind(s.drop_last(), k);
        lemma_without_kind(s.drop_last(), k);
        assert forall|i: int| 0 <= i < s.len() && s[i].kind != k implies without_kind(s, k).contains(
            #[trigger] s[i],
        ) by {
            if i < s.len() - 1 {
                assert(s.drop_last()[i] == s[i]);
                let j = choose|j: int| 0 <= j < rest.len() && rest[j] == s[i];
                if s.last().kind != k {
                    assert(rest.push(s.last())[j] == s[i]);
                }
            } else {
                assert(rest.push(s.last())[rest.len() as int] == s[i]);
            }
        }
    }
}

/// Picking up a ghosting item drops every no-gap effect and leaves a gap;
/// picking up a no-gap item drops every random gap and keeps gaps away.
pub proof fn lemma_ghosting_and_no_gap_exclusive(s: Seq<Effect<PlayerEffect>>, now: u64, deviate: bool)
    ensures
        !has_no_gap(after_item(s, ItemKind::Ghosting, now, deviate)),
        has_gap(after_item(s, ItemKind::Ghosting, now, deviate)),
        forall|i: int|
            0 <= i < after_item(s, ItemKind::NoGap, now, deviate).len() ==> (#[trigger] after_item(
                s,
                ItemKind::NoGap,
                now,
                deviate,
            )[i]).kind != PlayerEffect::Gap,
        has_no_gap(after_item(s, ItemKind::NoGap, now, deviate)),
{
    lemma_without_kind(s, PlayerEffect::NoGap);
    lemma_without_kind(s, PlayerEffect::Gap);
    let g = after_item(s, ItemKind::Ghosting, now, deviate);
    let kept = without_kind(s, PlayerEffect::NoGap);
    assert(g[kept.len() as int].kind.makes_gap());
    assert forall|i: int| 0 <= i < g.len() implies #[trigger] g[i].kind != PlayerEffect::NoGap by {
        if i < kept.len() {
            assert(g[i] == kept[i]);
        }
    }
    let n = after_item(s, ItemKind::NoGap, now, deviate);
    let kept2 = without_kind(s, PlayerEffect::Gap);
    assert(n[kept2.len() as int].kind == PlayerEffect::NoGap);
    assert forall|i: int| 0 <= i < n.len() implies (#[trigger] n[i]).kind != PlayerEffect::Gap by {
        if i < kept2.len() {
            assert(n[i] == kept2[i]);
        }
    }
}

/// Removes every effect of kind `k` and keeps the others in their order.
pub fn remove_kind(effects: &mut Vec<Effect<PlayerEffect>>, k: PlayerEffect)
    ensures
        final(effects)@ == without_kind(old(effects)@, k),
{
    let mut kept: Vec<Effect<PlayerEffect>> = Vec::new();
    let mut i: usize = 0;
    while i < effects.len()
        invariant
            i <= effects@.len(),
            effects@ == old(effects)@,
            kept@ == without_kind(effects@.take(i as int), k),
        decreases effects@.len() - i,
    {
        let e = effects[i];
        proof {
            assert(effects@.take(i as int + 1).drop_last() == effects@.take(i as int));
        }
        if e.kind != k {
            kept.push(e);
        }
        i = i + 1;
    }
    proof {
        assert(effects@.take(i as int) == effects@);
    }
    *effects = kept;
}

/// An effect granted by an item to a player at `now`; `deviate` adds the
/// jitter to its lifetime.
pub open spec fn spec_player_effect(now: u64, kind: PlayerEffect, deviate: bool) -> Effect<PlayerEffect> {
    Effect {
        start: now,
        duration: (PLAYER_EFFECT_DURATION + if deviate { PLAYER_EFFECT_DEVIATION_DURATION } else { 0 }) as u64,
        kind,
    }
}

/// A random trail gap that opens at `now`.
pub open spec fn spec_gap_effect(now: u64, deviate: bool) -> Effect<PlayerEffect> {
    Effect {
        start: now,
        duration: (GAP_EFFECT_DURATION + if deviate { GAP_EFFECT_DEVIATION_DURATION } else { 0 }) as u64,
        kind: PlayerEffect::Gap,
    }
}

/// An effect on the arena that starts at `now`.
pub open spec fn spec_world_effect(now: u64, kind: WorldEffect, deviate: bool) -> Effect<WorldEffect> {
    Effect {
        start: now,
        duration: (WORLD_EFFECT_DURATION + if deviate { WORLD_EFFECT_DEVIATION_DURATION } else { 0 }) as u64,
        kind,
    }
}

pub fn player_effect(now: u64, kind: PlayerEffect, deviate: bool) -> (r: Effect<PlayerEffect>)
    ensures
        r == spec_player_effect(now, kind, deviate),
{
    let extra = if deviate { PLAYER_EFFECT_DEVIATION_DURATION } else { 0 };
    Effect { start: now, duration: PLAYER_EFFECT_DURATION + extra, kind }
}

pub fn gap_effect(now: u64, deviate: bool) -> (r: Effect<PlayerEffect>)
    ensures
        r == spec_gap_effect(now, deviate),
{
    let extra = if deviate { GAP_EFFECT_DEVIATION_DURATION } else { 0 };
    Effect { start: now, duration: GAP_EFFECT_DURATION + extra, kind: PlayerEffect::Gap }
}

pub fn world_effect(now: u64, kind: WorldEffect, deviate: bool) -> (r: Effect<WorldEffect>)
    ensures
        r == spec_world_effect(now, kind, deviate),
{
    let extra = if deviate { WORLD_EFFECT_DEVIATION_DURATION } else { 0 };
    Effect { start: now, duration: WORLD_EFFECT_DURATION + extra, kind }
}

/// The effect an item of kind `k` grants to the player who collects it;
/// none for the items that act on the arena.
pub open spec fn item_player_effect(k: ItemKind) -> Option<PlayerEffect> {
    match k {
        ItemKind::Speedup => Some(PlayerEffect::Speed(SPEED_DELTA)),
        ItemKind::Slowdown => Some(PlayerEffect::Speed((-SPEED_DELTA) as i32)),
        ItemKind::FastTurning => Some(PlayerEffect::Turning((-TURNING_DELTA) as i32)),
        ItemKind::SlowTurning => Some(PlayerEffect::Turning(TURNING_DELTA)),
        ItemKind::Expand => Some(PlayerEffect::Size(EXPAND_DELTA)),
        ItemKind::Shrink => Some(PlayerEffect::Size((-SHRINK_DELTA) as i32)),
        ItemKind::Ghosting => Some(PlayerEffect::Ghosting),
        ItemKind::NoGap => Some(PlayerEffect::NoGap),
        ItemKind::WallTeleporting => None,
        ItemKind::Clear => None,
    }
}

/// The player effects left after an item of kind `k` is collected at `now`:
/// a ghosting item first drops every no-gap effect, a no-gap item every gap,
/// then the item's own effect is added.
pub open spec fn after_item(
    s: Seq<Effect<PlayerEffect>>,
    k: ItemKind,
    now: u64,
    deviate: bool,
) -> Seq<Effect<PlayerEffect>> {
    let kept = match k {
        ItemKind::Ghosting => without_kind(s, PlayerEffect::NoGap),
        ItemKind::NoGap => without_kind(s, PlayerEffect::Gap),
        _ => s,
    };
    kept.push(spec_player_effect(now, item_player_effect(k).unwrap(), deviate))
}

/// Applies an item that acts on the player who collects it.
pub fn apply_player_item(
    effects: &mut Vec<Effect<PlayerEffect>>,
    k: ItemKind,
    now: u64,
    deviate: bool,
)
    requires
        item_player_effect(k) is Some,
    ensures
        final(effects)@ == after_item(old(effects)@, k, now, deviate),
{
    let kind = match k {
        ItemKind::Speedup => PlayerEffect::Speed(SPEED_DELTA),
        ItemKind::Slowdown => PlayerEffect::Speed(-SPEED_DELTA),
        ItemKind::FastTurning => PlayerEffect::Turning(-TURNING_DELTA),
        ItemKind::SlowTurning => PlayerEffect::Turning(TURNING_DELTA),
        ItemKind::Expand => PlayerEffect::Size(EXPAND_DELTA),
        ItemKind::Shrink => PlayerEffect::Size(-SHRINK_DELTA),
        ItemKind::Ghosting => {
            remove_kind(effects, PlayerEffect::NoGap);
            PlayerEffect::Ghosting
        },
        ItemKind::NoGap => {
            remove_kind(effects, PlayerEffect::Gap);
            PlayerEffect::NoGap
        },
        _ => PlayerEffect::Gap,
    };
    effects.push(player_effect(now, kind, deviate));
}

} // verus!
