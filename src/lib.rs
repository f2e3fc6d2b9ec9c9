//! A synthetic CPU load service: a request names a number of cores and a
//! duration, the service occupies that many cores for that long and then
//! reports progress in five-second steps.
use vstd::prelude::*;

pub mod load;
pub mod progress;
pub mod orchestrator;
