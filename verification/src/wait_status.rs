use vstd::prelude::*;

verus! {

/// The signal number of the attach-induced suspend signal on Linux.
pub const SIGSTOP: u32 = 19;

/// The `errno` value reported when a wait finds no matching child on Linux.
pub const ECHILD: i32 = 10;

/// Whether a wait status word reports a stopped thread, as the C library
/// defines it: the low byte equals `0x7f`.
pub open spec fn spec_is_stopped(status: u32) -> bool {
    status & 0xff == 0x7f
}

/// The signal that stopped the thread, read from a status word that reports
/// a stop, as the C library defines it: the second byte.
pub open spec fn spec_stop_signal(status: u32) -> u32 {
    (status >> 8) & 0xff
}

/// Whether a wait status word reports a stopped thread.
pub fn is_stopped(status: u32) -> (r: bool)
    ensures
        r == spec_is_stopped(status),
{
    status & 0xff == 0x7f
}

/// The signal that stopped the thread.
pub fn stop_signal(status: u32) -> (r: u32)
    ensures
        r == spec_stop_signal(status),
{
    (status >> 8) & 0xff
}

} // verus!
