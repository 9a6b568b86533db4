use vstd::prelude::*;

use crate::effect::{
    attribute, attribute_value, gap, has_gap, has_no_gap, no_gap, Attribute, Effect, PlayerEffect,
};
use crate::protocol::Direction;

verus! {

/// Number of colours in the palette, and so the most players a round holds.
pub const PLAYER_COLOR_COUNT: usize = 8;

/// A player's colour; no two players of a world share one.
#[derive(Clone, Copy, Debug, PartialEq, Eq, Structural)]
pub enum PlayerColor {
    Orange,
    Green,
    Purple,
    Cyan,
    Magenta,
    Red,
    Yellow,
    Blue,
}

impl PlayerColor {
    /// Position of the colour in the palette.
    pub open spec fn index(self) -> nat {
        match self {
            PlayerColor::Orange => 0,
            PlayerColor::Green => 1,
            PlayerColor::Purple => 2,
            PlayerColor::Cyan => 3,
            PlayerColor::Magenta => 4,
            PlayerColor::Red => 5,
            PlayerColor::Yellow => 6,
            PlayerColor::Blue => 7,
        }
    }

    /// The colour at position `i` of the palette.
    pub open spec fn at(i: nat) -> PlayerColor {
        if i == 0 {
            PlayerColor::Orange
        } else if i == 1 {
            PlayerColor::Green
        } else if i == 2 {
            PlayerColor::Purple
        } else if i == 3 {
            PlayerColor::Cyan
        } else if i == 4 {
            PlayerColor::Magenta
        } else if i == 5 {
            PlayerColor::Red
        } else if i == 6 {
            PlayerColor::Yellow
        } else {
            PlayerColor::Blue
        }
    }

    /// Red, green and blue components of the colour.
    pub open spec fn spec_rgb(self) -> (u8, u8, u8) {
        match self {
            PlayerColor::Orange => (230, 100, 20),
            PlayerColor::Green => (50, 230, 20),
            PlayerColor::Purple => (160, 100, 230),
            PlayerColor::Cyan => (30, 200, 200),
            PlayerColor::Magenta => (230, 40, 180),
            PlayerColor::Red => (230, 40, 10),
            PlayerColor::Yellow => (230, 230, 30),
            PlayerColor::Blue => (70, 90, 230),
        }
    }

    pub fn rgb(&self) -> (r: (u8, u8, u8))
        ensures
            r == self.spec_rgb(),
    {
        match self {
            PlayerColor::Orange => (230, 100, 20),
            PlayerColor::Green => (50, 230, 20),
            PlayerColor::Purple => (160, 100, 230),
            PlayerColor::Cyan => (30, 200, 200),
            PlayerColor::Magenta => (230, 40, 180),
            PlayerColor::Red => (230, 40, 10),
            PlayerColor::Yellow => (230, 230, 30),
            PlayerColor::Blue => (70, 90, 230),
        }
    }

    /// The colour at position `i` of the palette.
    pub fn from_index(i: usize) -> (r: PlayerColor)
        requires
            i < PLAYER_COLOR_COUNT,
        ensures
            r == PlayerColor::at(i as nat),
            r.index() == i,
    {
        if i == 0 {
            PlayerColor::Orange
        } else if i == 1 {
            PlayerColor::Green
        } else if i == 2 {
            PlayerColor::Purple
        } else if i == 3 {
            PlayerColor::Cyan
        } else if i == 4 {
            PlayerColor::Magenta
        } else if i == 5 {
            PlayerColor::Red
        } else if i == 6 {
            PlayerColor::Yellow
        } else {
            PlayerColor::Blue
        }
    }

    pub fn to_index(&self) -> (r: usize)
        ensures
            r == self.index(),
            r < PLAYER_COLOR_COUNT,
    {
        match self {
            PlayerColor::Orange => 0,
            PlayerColor::Green => 1,
            PlayerColor::Purple => 2,
            PlayerColor::Cyan => 3,
            PlayerColor::Magenta => 4,
            PlayerColor::Red => 5,
            PlayerColor::Yellow => 6,
            PlayerColor::Blue => 7,
        }
    }

    /// Steps back to the previous colour of the palette, from the first to
    /// the last.
    pub fn prev(&mut self)
        ensures
            final(self).index() as int == (old(self).index() + PLAYER_COLOR_COUNT - 1) as int % (PLAYER_COLOR_COUNT as int),
    {
        let i = self.to_index();
        let j = if i == 0 { PLAYER_COLOR_COUNT - 1 } else { i - 1 };
        *self = PlayerColor::from_index(j);
    }

    /// Steps on to the next colour of the palette, from the last to the first.
    pub fn next(&mut self)
        ensures
            final(self).index() as int == (old(self).index() + 1) as int % (PLAYER_COLOR_COUNT as int),
    {
        let i = self.to_index();
        *self = PlayerColor::from_index((i + 1) % PLAYER_COLOR_COUNT);
    }
}

/// The way a player turns while not going straight.
#[derive(Clone, Copy, Debug, PartialEq, Eq, Structural)]
pub enum TurnDirection {
    Right,
    Left,
}

impl TurnDirection {
    /// Sign of the heading change: right turns increase the heading.
    pub open spec fn spec_angle_sign(self) -> i8 {
        match self {
            TurnDirection::Right => 1i8,
            TurnDirection::Left => -1i8,
        }
    }

    pub fn angle_sign(&self) -> (r: i8)
        ensures
            r == self.spec_angle_sign(),
    {
        match self {
            TurnDirection::Right => 1,
            TurnDirection::Left => -1,
        }
    }

    /// The steering direction that makes this turn.
    pub fn direction(&self) -> (r: Direction)
        ensures
            r == (match self {
                TurnDirection::Right => Direction::Right,
                TurnDirection::Left => Direction::Left,
            }),
    {
        match self {
            TurnDirection::Right => Direction::Right,
            TurnDirection::Left => Direction::Left,
        }
    }
}

/// Steering directions seen as turns.
pub trait DirectionExt {
    spec fn spec_turning_direction(&self) -> Option<TurnDirection>;

    /// The turn this direction makes; none when going straight.
    fn turning_direction(&self) -> (r: Option<TurnDirection>)
        ensures
            r == self.spec_turning_direction(),
    ;
}

impl DirectionExt for Direction {
    open spec fn spec_turning_direction(&self) -> Option<TurnDirection> {
        match self {
            Direction::Straight => None,
            Direction::Right => Some(TurnDirection::Right),
            Direction::Left => Some(TurnDirection::Left),
        }
    }

    fn turning_direction(&self) -> (r: Option<TurnDirection>) {
        match self {
            Direction::Straight => None,
            Direction::Right => Some(TurnDirection::Right),
            Direction::Left => Some(TurnDirection::Left),
        }
    }
}

/// What a trail section is laid with: the steering, whether it is a gap,
/// its thickness and, for an arc, its turning radius.
#[derive(Clone, Copy, Debug, PartialEq, Eq, Structural)]
pub struct SectionShape {
    pub dir: Direction,
    pub gap: bool,
    pub thickness: i128,
    pub radius: i128,
}

/// A player starts a new trail section when they have none, or when the
/// steering, the gap, the thickness or, while turning, the radius differs
/// from the last section's.
pub open spec fn spec_starts_new_section(last: Option<SectionShape>, cur: SectionShape) -> bool {
    match last {
        None => true,
        Some(l) => l.dir != cur.dir || l.gap != cur.gap || l.thickness != cur.thickness || (l.dir
            != Direction::Straight && l.radius != cur.radius),
    }
}

pub fn starts_new_section(last: Option<SectionShape>, cur: SectionShape) -> (r: bool)
    ensures
        r == spec_starts_new_section(last, cur),
{
    match last {
        None => true,
        Some(l) => l.dir != cur.dir || l.gap != cur.gap || l.thickness != cur.thickness || (l.dir
            != Direction::Straight && l.radius != cur.radius),
    }
}

/// A player: who they are, their score, their effects, their steering and
/// whether they crashed. `body` holds what the host tracks in continuous
/// space (position, heading, trail, keys).
pub struct Player<B> {
    pub id: u16,
    pub name: String,
    pub color: PlayerColor,
    pub effects: Vec<Effect<PlayerEffect>>,
    pub local_direction: Direction,
    pub remote_direction: Direction,
    pub just_crashed: bool,
    pub crashed: bool,
    pub score: u16,
    pub body: B,
}

impl<B> Player<B> {
    /// The direction the player steers: the local keys win over the remote
    /// control unless they go straight.
    pub open spec fn spec_direction(&self) -> Direction {
        match self.local_direction {
            Direction::Straight => self.remote_direction,
            _ => self.local_direction,
        }
    }

    /// A player who has not played yet: no score, no effects, going straight.
    pub fn new(id: u16, name: String, color: PlayerColor, body: B) -> (r: Self)
        ensures
            r.id == id,
            r.name@ == name@,
            r.color == color,
            r.effects@.len() == 0,
            r.local_direction == Direction::Straight,
            r.remote_direction == Direction::Straight,
            !r.just_crashed,
            !r.crashed,
            r.score == 0,
            r.body == body,
    {
        Player {
            id,
            name,
            color,
            effects: Vec::new(),
            local_direction: Direction::Straight,
            remote_direction: Direction::Straight,
            just_crashed: false,
            crashed: false,
            score: 0,
            body,
        }
    }

    /// Makes the player ready for a new round in `body`: effects, steering
    /// and crash flags are cleared; name, colour and score stay.
    pub fn reset(&mut self, body: B)
        ensures
            final(self).id == old(self).id,
            final(self).name == old(self).name,
            final(self).color == old(self).color,
            final(self).score == old(self).score,
            final(self).effects@.len() == 0,
            final(self).local_direction == Direction::Straight,
            final(self).remote_direction == Direction::Straight,
            !final(self).just_crashed,
            !final(self).crashed,
            final(self).body == body,
    {
        self.body = body;
        self.effects.clear();
        self.local_direction = Direction::Straight;
        self.remote_direction = Direction::Straight;
        self.just_crashed = false;
        self.crashed = false;
    }

    /// Whether the player leaves a gap (no solid trail) now.
    pub fn gap(&self) -> (r: bool)
        ensures
            r == has_gap(self.effects@),
    {
        gap(&self.effects)
    }

    /// Whether random gaps are kept away from the player now.
    pub fn no_gap(&self) -> (r: bool)
        ensures
            r == has_no_gap(self.effects@),
    {
        no_gap(&self.effects)
    }

    pub fn direction(&self) -> (r: Direction)
        ensures
            r == self.spec_direction(),
    {
        match self.local_direction {
            Direction::Straight => self.remote_direction,
            _ => self.local_direction,
        }
    }

    /// The shape of the trail the player lays now.
    pub fn section_shape(&self) -> (r: SectionShape)
        ensures
            r.dir == self.spec_direction(),
            r.gap == has_gap(self.effects@),
            r.thickness == attribute_value(self.effects@, Attribute::Size),
            r.radius == attribute_value(self.effects@, Attribute::Turning),
    {
        SectionShape {
            dir: self.direction(),
            gap: self.gap(),
            thickness: self.thickness(),
            radius: self.turning_radius(),
        }
    }

    /// Speed in world units per second under the active effects.
    pub fn speed(&self) -> (r: i128)
        ensures
            r as int == attribute_value(self.effects@, Attribute::Speed),
    {
        attribute(&self.effects, Attribute::Speed)
    }

    /// Trail thickness under the active effects.
    pub fn thickness(&self) -> (r: i128)
        ensures
            r as int == attribute_value(self.effects@, Attribute::Size),
    {
        attribute(&self.effects, Attribute::Size)
    }

    /// Turning radius under the active effects.
    pub fn turning_radius(&self) -> (r: i128)
        ensures
            r as int == attribute_value(self.effects@, Attribute::Turning),
    {
        attribute(&self.effects, Attribute::Turning)
    }
}

} // verus!
