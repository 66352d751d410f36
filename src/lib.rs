//! A fixed-step simulation host: an entity store behind stable handles, a frame
//! scheduler, an input-driven spawn controller and the selection of what to draw.
//! The physics solver and the renderer stay outside; the host takes the solver's
//! read-back after each step and hands out draw commands.

pub mod geometry;
pub mod render;
pub mod scheduler;
pub mod spawn;
pub mod store;
pub mod world;
