use vstd::prelude::*;

verus! {

/// Number of distinct item kinds.
pub const ITEM_KIND_COUNT: usize = 10;

/// Sum of the spawn weights of all item kinds.
pub const SUM_OF_ITEM_SPAWN_RATES: u8 = 34;

/// A pickup lying in the arena, and what it does when collected.
#[derive(Clone, Copy, Debug, PartialEq, Eq, Structural)]
pub enum ItemKind {
    Speedup,
    Slowdown,
    FastTurning,
    SlowTurning,
    Expand,
    Shrink,
    Ghosting,
    NoGap,
    WallTeleporting,
    Clear,
}

impl ItemKind {
    /// Position of the kind in the catalogue.
    pub open spec fn index(self) -> nat {
        match self {
            ItemKind::Speedup => 0,
            ItemKind::Slowdown => 1,
            ItemKind::FastTurning => 2,
            ItemKind::SlowTurning => 3,
            ItemKind::Expand => 4,
            ItemKind::Shrink => 5,
            ItemKind::Ghosting => 6,
            ItemKind::NoGap => 7,
            ItemKind::WallTeleporting => 8,
            ItemKind::Clear => 9,
        }
    }

    /// The kind at position `i` of the catalogue.
    pub open spec fn at(i: nat) -> ItemKind {
        if i == 0 {
            ItemKind::Speedup
        } else if i == 1 {
            ItemKind::Slowdown
        } else if i == 2 {
            ItemKind::FastTurning
        } else if i == 3 {
            ItemKind::SlowTurning
        } else if i == 4 {
            ItemKind::Expand
        } else if i == 5 {
            ItemKind::Shrink
        } else if i == 6 {
            ItemKind::Ghosting
        } else if i == 7 {
            ItemKind::NoGap
        } else if i == 8 {
            ItemKind::WallTeleporting
        } else {
            ItemKind::Clear
        }
    }

    /// Relative spawn weight of the kind.
    pub open spec fn weight(self) -> nat {
        match self {
            ItemKind::Ghosting => 1,
            ItemKind::NoGap => 3,
            ItemKind::Clear => 2,
            _ => 4,
        }
    }

    /// Displayed name of the kind.
    pub open spec fn spec_name(self) -> Seq<char> {
        match self {
            ItemKind::Speedup => "Speedup"@,
            ItemKind::Slowdown => "Slowdown"@,
            ItemKind::FastTurning => "Fast turning"@,
            ItemKind::SlowTurning => "Slow turning"@,
            ItemKind::Expand => "Expand"@,
            ItemKind::Shrink => "Shrink"@,
            ItemKind::Ghosting => "Ghost"@,
            ItemKind::NoGap => "No gap"@,
            ItemKind::WallTeleporting => "Wall teleporting"@,
            ItemKind::Clear => "Clear trails"@,
        }
    }

    /// Display colour of the kind, as red, green and blue.
    pub open spec fn spec_rgb(self) -> (u8, u8, u8) {
        match self {
            ItemKind::Speedup => (50, 60, 200),
            ItemKind::Slowdown => (220, 20, 50),
            ItemKind::FastTurning => (150, 40, 240),
            ItemKind::SlowTurning => (4, 174, 247),
            ItemKind::Expand => (245, 210, 22),
            ItemKind::Shrink => (230, 120, 40),
            ItemKind::Ghosting => (240, 240, 240),
            ItemKind::NoGap => (4, 247, 136),
            ItemKind::WallTeleporting => (162, 230, 50),
            ItemKind::Clear => (230, 40, 220),
        }
    }

    pub fn spawn_rate(&self) -> (r: u8)
        ensures
            r as nat == self.weight(),
    {
        match self {
            ItemKind::Speedup => 4,
            ItemKind::Slowdown => 4,
            ItemKind::FastTurning => 4,
            ItemKind::SlowTurning => 4,
            ItemKind::Expand => 4,
            ItemKind::Shrink => 4,
            ItemKind::Ghosting => 1,
            ItemKind::NoGap => 3,
            ItemKind::WallTeleporting => 4,
            ItemKind::Clear => 2,
        }
    }

    pub fn name(&self) -> (r: &'static str)
        ensures
            r@ == self.spec_name(),
    {
        match self {
            ItemKind::Speedup => "Speedup",
            ItemKind::Slowdown => "Slowdown",
            ItemKind::FastTurning => "Fast turning",
            ItemKind::SlowTurning => "Slow turning",
            ItemKind::Expand => "Expand",
            ItemKind::Shrink => "Shrink",
            ItemKind::Ghosting => "Ghost",
            ItemKind::NoGap => "No gap",
            ItemKind::WallTeleporting => "Wall teleporting",
            ItemKind::Clear => "Clear trails",
        }
    }

    /// Red, green and blue components of the kind's display colour.
    pub fn rgb(&self) -> (r: (u8, u8, u8))
        ensures
            r == self.spec_rgb(),
    {
        match self {
            ItemKind::Speedup => (50, 60, 200),
            ItemKind::Slowdown => (220, 20, 50),
            ItemKind::FastTurning => (150, 40, 240),
            ItemKind::SlowTurning => (4, 174, 247),
            ItemKind::Expand => (245, 210, 22),
            ItemKind::Shrink => (230, 120, 40),
            ItemKind::Ghosting => (240, 240, 240),
            ItemKind::NoGap => (4, 247, 136),
            ItemKind::WallTeleporting => (162, 230, 50),
            ItemKind::Clear => (230, 40, 220),
        }
    }

    /// The kind at position `i` of the catalogue.
    pub fn from_index(i: usize) -> (r: ItemKind)
        requires
            i < ITEM_KIND_COUNT,
        ensures
            r == ItemKind::at(i as nat),
            r.index() == i,
    {
        if i == 0 {
            ItemKind::Speedup
        } else if i == 1 {
            ItemKind::Slowdown
        } else if i == 2 {
            ItemKind::FastTurning
        } else if i == 3 {
            ItemKind::SlowTurning
        } else if i == 4 {
            ItemKind::Expand
        } else if i == 5 {
            ItemKind::Shrink
        } else if i == 6 {
            ItemKind::Ghosting
        } else if i == 7 {
            ItemKind::NoGap
        } else if i == 8 {
            ItemKind::WallTeleporting
        } else {
            ItemKind::Clear
        }
    }

    /// Picks the kind selected by `roll`, a number drawn uniformly below
    /// `SUM_OF_ITEM_SPAWN_RATES`: each kind owns a run of consecutive
    /// numbers as long as its weight, in catalogue order.
    pub fn from_roll(roll: u8) -> (r: ItemKind)
        requires
            roll < SUM_OF_ITEM_SPAWN_RATES,
        ensures
            weight_prefix(r.index()) <= roll < weight_prefix(r.index() + 1),
    {
        let mut i: usize = 0;
        let mut acc: u8 = 0;
        while i < ITEM_KIND_COUNT
            invariant
                i <= ITEM_KIND_COUNT,
                acc as nat == weight_prefix(i as nat),
                acc <= roll,
            decreases ITEM_KIND_COUNT - i,
        {
            let k = ItemKind::from_index(i);
            proof {
                lemma_weight_prefix_bounded(i as nat);
            }
            let next = acc + k.spawn_rate();
            if next > roll {
                return k;
            }
            acc = next;
            i = i + 1;
        }
        proof {
            reveal_with_fuel(weight_prefix, 11);
        }
        ItemKind::Clear
    }
}

/// Sum of the weights of the first `n` kinds of the catalogue.
pub open spec fn weight_prefix(n: nat) -> nat
    decreases n,
{
    if n == 0 {
        0
    } else {
        weight_prefix((n - 1) as nat) + ItemKind::at((n - 1) as nat).weight()
    }
}

/// Every prefix of the catalogue weighs at most `SUM_OF_ITEM_SPAWN_RATES`.
pub proof fn lemma_weight_prefix_bounded(i: nat)
    requires
        i < ITEM_KIND_COUNT,
    ensures
        weight_prefix(i + 1) <= SUM_OF_ITEM_SPAWN_RATES,
        weight_prefix(i + 1) == weight_prefix(i) + ItemKind::at(i).weight(),
{
    reveal_with_fuel(weight_prefix, 11);
}

/// The spawn weights of the catalogue add up to `SUM_OF_ITEM_SPAWN_RATES`.
pub proof fn lemma_weights_sum()
    ensures
        weight_prefix(ITEM_KIND_COUNT as nat) == SUM_OF_ITEM_SPAWN_RATES as nat,
{
    reveal_with_fuel(weight_prefix, 11);
}

} // verus!
