//! Authoritative simulation core of a two-player real-time ball game.
//!
//! The library holds the verified game logic: the geometry and entity
//! types, the ball physics and scoring state machine, and the shared
//! game-state bookkeeping (player gating, per-round broadcast flags,
//! tick advancement, client lifecycle).  Transport, serialization and
//! task plumbing live outside the library and talk to it through plain
//! values.

pub mod game;
pub mod laws;
pub mod state;
