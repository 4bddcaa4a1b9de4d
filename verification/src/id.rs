use std::sync::atomic::AtomicU64;
use vstd::prelude::*;

verus! {

/// Identifier of a client connection or of a download.
#[derive(Debug, Clone, Copy, PartialEq, Eq, PartialOrd, Ord, Hash, Structural)]
pub struct Id(pub u64);

impl Id {
    /// A fresh id: the value the counter held, which is then advanced.
    /// Nothing is claimed of the value: other threads share the counter.
    pub fn generate(origin: &AtomicU64) -> (r: Id) {
        Id(origin.fetch_add(1, std::sync::atomic::Ordering::Relaxed))
    }
}

} // verus!
