//! A 256-bit unsigned integer, the type of a bid's value.

use std::cmp::Ordering;
use vstd::prelude::*;
use vstd::std_specs::cmp::PartialOrdSpecImpl;
use vstd::std_specs::convert::FromSpecImpl;

verus! {

/// An unsigned integer of 256 bits, held as two halves of 128 bits.
#[derive(Clone, Copy, Debug, PartialEq, Eq, Structural, Hash)]
pub struct U256 {
    /// The 128 most significant bits.
    pub high: u128,
    /// The 128 least significant bits.
    pub low: u128,
}

impl U256 {
    /// The number that `self` stands for.
    pub open spec fn value(&self) -> nat {
        (self.high * 0x1_0000_0000_0000_0000_0000_0000_0000_0000 + self.low) as nat
    }

    /// The integer with the given halves.
    pub fn new(high: u128, low: u128) -> (r: Self)
        ensures
            r == (U256 { high, low }),
    {
        U256 { high, low }
    }

    /// Zero.
    pub fn zero() -> (r: Self)
        ensures
            r.value() == 0,
            r == (U256 { high: 0, low: 0 }),
    {
        U256 { high: 0, low: 0 }
    }
}

/// Distinct pairs of halves stand for distinct numbers, and the order of the
/// numbers is the order of the pairs.
pub proof fn lemma_value_order(a: U256, b: U256)
    ensures
        a.value() == b.value() <==> a == b,
        a.value() < b.value() <==> (a.high < b.high || (a.high == b.high && a.low < b.low)),
{
}

impl PartialOrd for U256 {
    fn partial_cmp(&self, other: &Self) -> (r: Option<Ordering>) {
        proof {
            lemma_value_order(*self, *other);
            lemma_value_order(*other, *self);
        }
        if self.high < other.high {
            Some(Ordering::Less)
        } else if self.high > other.high {
            Some(Ordering::Greater)
        } else if self.low < other.low {
            Some(Ordering::Less)
        } else if self.low > other.low {
            Some(Ordering::Greater)
        } else {
            Some(Ordering::Equal)
        }
    }
}

impl PartialOrdSpecImpl for U256 {
    open spec fn obeys_partial_cmp_spec() -> bool {
        true
    }

    open spec fn partial_cmp_spec(&self, other: &Self) -> Option<Ordering> {
        if self.value() < other.value() {
            Some(Ordering::Less)
        } else if self.value() > other.value() {
            Some(Ordering::Greater)
        } else {
            Some(Ordering::Equal)
        }
    }
}

impl From<u64> for U256 {
    fn from(x: u64) -> (r: Self) {
        U256 { high: 0, low: x as u128 }
    }
}

impl FromSpecImpl<u64> for U256 {
    open spec fn obeys_from_spec() -> bool {
        true
    }

    open spec fn from_spec(x: u64) -> Self {
        U256 { high: 0, low: x as u128 }
    }
}

} // verus!
