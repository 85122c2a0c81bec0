use vstd::prelude::*;

verus! {

/// [Scheduler] is used with a controller and with individual sources to define
/// query offsets and timeouts, in milliseconds.
///
/// It is plain data: the delay drives offset computation, while the timeout is
/// carried for an external executor to interpret.  Values are copied wherever
/// they are used, so controller-level and per-source instances are independent.
#[derive(Clone, Copy, Debug)]
pub struct Scheduler {
    pub delay: u32,
    pub timeout: u32,
}

} // verus!
