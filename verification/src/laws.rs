//! What holds of the library as a whole.

pub mod calls;
pub mod code;
pub mod jobs;
pub mod names;
pub mod results;
pub mod runs;
pub mod stubs;
pub mod texts;
pub mod wire;
