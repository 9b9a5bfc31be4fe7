//! The decision logic of a Lucky Sprint helper: the game's rules, the fixed-route
//! strategy, the decisions of a running round, device selection and the text it
//! reads and writes, with their contracts.
use vstd::prelude::*;

pub mod model;
pub mod rules;
pub mod text;
pub mod strategy;
pub mod runner;
pub mod config;
pub mod events;
pub mod recognition;
pub mod controller;

verus! {
}
