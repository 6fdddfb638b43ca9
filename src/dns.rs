//! The resolver override guard: it holds the resolver file's original bytes
//! from the override until they are written back, once.

use vstd::prelude::*;
use vstd::string::StringSliceAdditionalSpecFns;
use vstd::string::StrSliceExecFns;

verus! {

/// The line that points name resolution at the local DNS server.
pub open spec fn override_line() -> Seq<u8> {
    "nameserver 127.0.0.1".spec_bytes()
}

/// The override of the system resolver file, from acquisition to release.
pub struct DNSSetup {
    original: Vec<u8>,
    restored: bool,
}

impl DNSSetup {
    /// The resolver file's bytes as they were before the override.
    pub closed spec fn original(&self) -> Seq<u8> {
        self.original@
    }

    /// Whether the original bytes have been handed back for restoring.
    pub closed spec fn restored(&self) -> bool {
        self.restored
    }

    /// A guard over a resolver file whose content was `original`.
    pub fn new(original: Vec<u8>) -> (r: DNSSetup)
        ensures
            r.original() == original@,
            !r.restored(),
    {
        DNSSetup { original, restored: false }
    }

    /// What the resolver file holds while the guard is active.
    pub fn override_content(&self) -> (r: Vec<u8>)
        ensures
            r@ == override_line(),
    {
        "nameserver 127.0.0.1".as_bytes_vec()
    }

    /// The captured original bytes.
    pub fn original_content(&self) -> (r: &[u8])
        ensures
            r@ == self.original(),
    {
        self.original.as_slice()
    }

    /// Hands back the original bytes to write to the resolver file: the first
    /// time only; afterwards nothing.
    pub fn release(&mut self) -> (r: Option<Vec<u8>>)
        ensures
            release_outcome(*old(self), *final(self), r),
    {
        if self.restored {
            return None;
        }
        let mut out: Vec<u8> = Vec::new();
        std::mem::swap(&mut out, &mut self.original);
        self.restored = true;
        Some(out)
    }
}

/// A release from `before` to `after` returning `r`: the original bytes on the
/// first release, nothing on any later one.
pub open spec fn release_outcome(before: DNSSetup, after: DNSSetup, r: Option<Vec<u8>>) -> bool {
    &&& after.restored()
    &&& if before.restored() {
        r is None
    } else {
        r matches Some(v) && v@ == before.original()
    }
}

/// Acquiring a guard over content `b` and releasing it hands back exactly `b`,
/// once: a second release returns nothing.
pub proof fn lemma_guard_round_trip(
    b: Seq<u8>,
    g0: DNSSetup,
    g1: DNSSetup,
    r1: Option<Vec<u8>>,
    g2: DNSSetup,
    r2: Option<Vec<u8>>,
)
    requires
        g0.original() == b,
        !g0.restored(),
        release_outcome(g0, g1, r1),
        release_outcome(g1, g2, r2),
    ensures
        r1 matches Some(v) && v@ == b,
        r2 is None,
{
}

} // verus!
