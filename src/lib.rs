//! Player registry, command handling, snapshots and display states of a
//! rollback-capable multiplayer world.
//!
//! The library decides everything about players and their input: which
//! commands are valid, which id a spawn gets, what each tick asks of the
//! rigid-body integrator, and how a snapshot is captured and restored. The
//! integrator itself, and the floating-point body states it produces, stay
//! with the host, which hands the world each body's state after every tick.

pub mod display;
pub mod game;
pub mod world;

pub use display::GameDisplayState;
pub use game::{GameCommand, PlayerCommand, PlayerId, PlayerInput};
pub use world::{
    CommandError, GameSnapshot, GameWorld, Player, PlayerAction, PlayerSnapshot, SnapshotChanges,
};
