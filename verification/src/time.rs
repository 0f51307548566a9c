use vstd::prelude::*;

verus! {

/// A span of time: whole seconds, and nanoseconds below a second.
#[derive(Clone, Copy, Debug, PartialEq, Eq, Structural)]
pub struct Duration {
    pub secs: u64,
    pub nanos: u32,
}

} // verus!
