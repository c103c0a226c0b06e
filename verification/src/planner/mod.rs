//! The planners and what they share.
pub mod graph_utils;
pub mod spatial_index;
pub mod roadmap;
pub mod connect;
pub mod base_planner;
pub mod termination;
pub mod prm;
pub mod prm_star;
pub mod rrt;
