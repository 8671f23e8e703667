//! Spans of wall-clock time.

use vstd::prelude::*;

verus! {

/// Nanoseconds in one second.
pub const NANOS_PER_SEC: u32 = 1_000_000_000;

/// A span of wall-clock time: whole seconds and the nanoseconds past them.
///
/// Its view is the span in nanoseconds.
#[derive(Debug, Clone, Copy)]
pub struct Elapsed {
    secs: u64,
    nanos: u32,
}

impl View for Elapsed {
    type V = nat;

    closed spec fn view(&self) -> nat {
        (self.secs as nat) * (NANOS_PER_SEC as nat) + (self.nanos as nat)
    }
}

impl Elapsed {
    #[verifier::type_invariant]
    spec fn well_formed(self) -> bool {
        self.nanos < NANOS_PER_SEC
    }

    /// The empty span.
    pub fn zero() -> (e: Elapsed)
        ensures
            e@ == 0,
    {
        Elapsed { secs: 0, nanos: 0 }
    }

    /// The span of `secs` seconds and `nanos` nanoseconds, where `nanos` is
    /// less than a second.
    pub(crate) fn of(secs: u64, nanos: u32) -> (e: Elapsed)
        requires
            nanos < NANOS_PER_SEC,
        ensures
            e@ == secs * NANOS_PER_SEC + nanos,
    {
        Elapsed { secs, nanos }
    }

    /// The span of `secs` seconds and `nanos` nanoseconds, where `nanos` is
    /// less than a second; `None` for any other `nanos`.
    pub fn new(secs: u64, nanos: u32) -> (e: Option<Elapsed>)
        ensures
            e is Some <==> nanos < NANOS_PER_SEC,
            e is Some ==> e->0@ == secs * NANOS_PER_SEC + nanos,
    {
        if nanos < NANOS_PER_SEC {
            Some(Elapsed::of(secs, nanos))
        } else {
            None
        }
    }

    /// The whole seconds of the span.
    pub fn secs(&self) -> (s: u64)
        ensures
            s == self@ / (NANOS_PER_SEC as nat),
    {
        proof {
            use_type_invariant(self);
            lemma_split(self.secs as nat, self.nanos as nat);
        }
        self.secs
    }

    /// The nanoseconds past the last whole second.
    pub fn subsec_nanos(&self) -> (n: u32)
        ensures
            n == self@ % (NANOS_PER_SEC as nat),
            n < NANOS_PER_SEC,
    {
        proof {
            use_type_invariant(self);
            lemma_split(self.secs as nat, self.nanos as nat);
        }
        self.nanos
    }

    /// Whether the span is empty.
    pub fn is_zero(&self) -> (z: bool)
        ensures
            z == (self@ == 0),
    {
        proof {
            use_type_invariant(self);
            lemma_split(self.secs as nat, self.nanos as nat);
        }
        self.secs == 0 && self.nanos == 0
    }
}

/// Seconds and nanoseconds are the quotient and remainder of the span.
proof fn lemma_split(secs: nat, nanos: nat)
    requires
        nanos < NANOS_PER_SEC,
    ensures
        (secs * (NANOS_PER_SEC as nat) + nanos) / (NANOS_PER_SEC as nat) == secs,
        (secs * (NANOS_PER_SEC as nat) + nanos) % (NANOS_PER_SEC as nat) == nanos,
        secs * (NANOS_PER_SEC as nat) + nanos == 0 <==> secs == 0 && nanos == 0,
{
    vstd::arithmetic::div_mod::lemma_fundamental_div_mod_converse(
        (secs * (NANOS_PER_SEC as nat) + nanos) as int,
        NANOS_PER_SEC as int,
        secs as int,
        nanos as int,
    );
    assert(secs * (NANOS_PER_SEC as nat) >= 0) by (nonlinear_arith);
    assert(secs > 0 ==> secs * (NANOS_PER_SEC as nat) > 0) by (nonlinear_arith);
}

} // verus!
