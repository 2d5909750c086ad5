use vstd::prelude::*;

pub mod model;
pub mod reach;
pub mod topology;
pub mod validate;
pub mod batches;
pub mod template;
pub mod instantiate;
pub mod run;
pub mod inputs;
