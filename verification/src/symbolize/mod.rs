//! Symbolization: translating addresses into names and source locations.
use crate::backtrace::Frame;
use vstd::prelude::*;

pub mod dbghelp;
pub mod dladdr;
pub mod gimli;
pub mod libbacktrace;

verus! {

/// What to resolve: a bare address, or the instruction pointer of a
/// captured frame.
#[derive(Clone, Copy, Debug)]
pub enum ResolveWhat {
    /// A runtime address.
    Address(usize),
    /// A frame of a captured call stack.
    Frame(Frame),
}

impl ResolveWhat {
    /// The address to symbolize.
    pub open spec fn address(self) -> usize {
        match self {
            ResolveWhat::Address(a) => a,
            ResolveWhat::Frame(f) => f.ip(),
        }
    }

    /// Returns the address to symbolize: the address itself, or the
    /// frame's instruction pointer.
    pub fn address_or_ip(&self) -> (r: usize)
        ensures
            r == self.address(),
    {
        match self {
            ResolveWhat::Address(a) => *a,
            ResolveWhat::Frame(f) => f.ip(),
        }
    }
}

} // verus!
