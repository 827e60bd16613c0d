pub mod backend;
pub mod cache;
pub mod control;
pub mod hotness;
pub mod inst;
pub mod loader;
pub mod machine;
pub mod step;
pub mod util;
