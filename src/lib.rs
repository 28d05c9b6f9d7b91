//! Random excited Dyck-word spin chains and their Fredkin evolution.
use vstd::prelude::*;

pub mod calculation_utils;
pub mod dyck;
pub mod evolution;
pub mod layout;
pub mod random_source;
pub mod run_data;
pub mod sampling;
pub mod simulation;
pub mod spin_chain;
pub mod statistics;
