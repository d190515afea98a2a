//! A turn engine and lobby for a two-player, fog-of-war grid game.
//!
//! Two sides command rosters of directional agents on a shared grid. The sides
//! take turns; each turn is one batch of moves, accepted or rejected as a
//! whole, and after every accepted turn each side learns which opposing
//! agents its own agents can currently see.
//!
//! Everything here is plain computation on plain values. Reading from and
//! writing to connections is left to the caller, who drives a [`session::Session`]
//! by performing the actions it asks for and reporting what happened.

pub mod board;
pub mod chance;
pub mod geometry;
pub mod lobby;
pub mod roster;
pub mod session;
pub mod turn;
