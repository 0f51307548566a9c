pub mod app;
pub mod runner;
pub mod stack_trace;
