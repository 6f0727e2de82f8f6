//! Control logic of a CPU throttle for process groups.
//!
//! The library decides; the program around it measures, signals, sleeps and prints.
//! Every function states what it decides in its contract, and the `law_` functions
//! state what holds across several of them.

pub mod control;
pub mod service;
