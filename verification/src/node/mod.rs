pub mod builder;
pub mod ethereum;
pub mod launch;
pub mod sequence;
pub mod types;
