//! Simulation core of a multiplayer light-cycle arena game: effects and
//! items, the round state machine, the clock, player bookkeeping, the
//! handling of remote-control events, the menu cursor and the wire format
//! spoken with the remote controls.
//!
//! Positions, headings and trails live in continuous space with the host;
//! a world carries them opaquely as each player's `body`.

pub mod clock;
pub mod effect;
pub mod events;
pub mod item;
pub mod menu;
pub mod player;
pub mod protocol;
pub mod world;
mod random;
