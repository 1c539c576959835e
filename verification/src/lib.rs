//! Rules engine of a turn-based artillery duel played among gravitating
//! bodies.
//!
//! Players take turns to fire missiles from their ships. A missile is bent on
//! its way by the planets and ships it passes; it ends when it strikes
//! something or when its lifetime runs out. A ship that is struck is out of
//! the game, and the last player with a ship wins.
//!
//! The crate holds the rules of that game and proves them: whose turn it is
//! and how it passes on, when a fire command is refused, what a tick does to
//! the missiles and the ships, when the game ends, and how a new world is
//! laid out so that nothing in it touches anything else.
//!
//! The arithmetic of flight and the geometry of shapes are done in floating
//! point by a host. The rules carry the host's numbers as bit patterns (see
//! `scalar`) and take what the host found as plain values: a `Launch` for a
//! missile that is fired, a `TrailStep` for a missile's tick, a `Proximity`
//! for two shapes.
//!
//! Every type that changes has a model, reached by `@`, and the contract of
//! each function that changes a value gives the new model as a function of
//! the old one and the arguments.

pub mod constants;
pub mod entity;
pub mod event;
pub mod mapgen;
pub mod missile;
pub mod scalar;
pub mod shader;
pub mod state;
pub mod turn;
