//! A chat-driven battle royale: viewers of a chat channel join as agents that
//! roam an arena, steer away from crowds, topple or fall out, and get knocked
//! about by blasts until one is left.
//!
//! Lengths are in thousandths of a world unit and angles in thousandths of a
//! radian, so that every rule here is exact integer arithmetic.
use vstd::prelude::*;

pub mod geometry;
pub mod steering;
pub mod weapon;
pub mod registry;
pub mod spawn;
pub mod elimination;
pub mod game;

pub use elimination::Player;
pub use game::{ButtonAction, ChannelName, ConnectEvent, Game, GameState};
pub use geometry::{Impulse, Point, Velocity};
pub use registry::Players;
pub use spawn::{Message, Settings, Spawn, UserJoined};

verus! {

} // verus!
