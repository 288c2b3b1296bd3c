//! The mining flag: a switch that is shared by the threads of a process.
//! While it is set a proof of work is being sought; whoever unsets it stops
//! the search.
use vstd::prelude::*;

verus! {

/// Reads the flag. Another thread may change it at any time, so nothing is
/// known of what is read.
pub(crate) fn is_set(flag: &std::sync::atomic::AtomicBool) -> (set: bool) {
    flag.load(std::sync::atomic::Ordering::Acquire)
}

/// Sets the flag.
pub(crate) fn set(flag: &std::sync::atomic::AtomicBool) {
    flag.store(true, std::sync::atomic::Ordering::SeqCst)
}

/// Unsets the flag.
pub(crate) fn unset(flag: &std::sync::atomic::AtomicBool) {
    flag.store(false, std::sync::atomic::Ordering::SeqCst)
}

} // verus!
