pub mod builder;
pub mod sets;
