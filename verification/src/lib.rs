//! Scaffolding for a small interactive application: a frame timer, the
//! lifecycle of a game loop, and a registry of named scenes of which at most
//! one is current.

pub mod clock;
pub mod game;
mod registry;
pub mod scene;
pub mod timer;
