//! A sampling-based motion planner for a two-dimensional configuration
//! space laid out on a fixed-resolution integer lattice.
//!
//! A planner owns a roadmap of collision-free configurations, grows it from
//! random samples drawn inside its boundaries, and keeps the cheapest known
//! path between its start and its goal.
pub mod types;
pub mod text;
pub mod space;
pub mod boundaries;
pub mod collision_checker;
pub mod optimizer;
pub mod problem;
pub mod planner;
pub mod node;
pub mod setup;
