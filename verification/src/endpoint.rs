//! Addresses, ports and the inclusive port range a listener may bind in.

use vstd::prelude::*;

verus! {

/// A network address as plain bits: four octets in a `u32`, or sixteen in a `u128`.
#[derive(Clone, Copy, Debug, PartialEq, Eq, Structural)]
pub enum Address {
    V4(u32),
    V6(u128),
}

/// Where a listener can be reached: an address and a port.
#[derive(Clone, Copy, Debug, PartialEq, Eq, Structural)]
pub struct Endpoint {
    pub address: Address,
    pub port: u16,
}

/// Why a pair of ports is no port range.
#[derive(Clone, Copy, Debug, PartialEq, Eq, Structural)]
pub enum RangeError {
    /// One of the two bounds is zero, which is no port.
    ZeroPort,
    /// The upper bound lies below the lower bound.
    Inverted,
}

/// An inclusive range of ports, `first ..= last`, with `1 <= first <= last`.
#[derive(Clone, Copy, Debug, PartialEq, Eq, Structural)]
pub struct PortRange {
    first: u16,
    last: u16,
}

impl PortRange {
    #[verifier::type_invariant]
    spec fn ordered(self) -> bool {
        1 <= self.first <= self.last
    }

    /// The lowest port of the range.
    pub closed spec fn low(self) -> u16 {
        self.first
    }

    /// The highest port of the range.
    pub closed spec fn high(self) -> u16 {
        self.last
    }

    /// Whether `port` lies in the range.
    pub open spec fn contains(self, port: u16) -> bool {
        self.low() <= port <= self.high()
    }

    /// How many ports the range holds.
    pub open spec fn size(self) -> int {
        self.high() - self.low() + 1
    }

    /// Builds the range `first ..= last`. A zero bound is refused first, then
    /// an upper bound below the lower one.
    pub fn new(first: u16, last: u16) -> (r: Result<PortRange, RangeError>)
        ensures
            r is Ok <==> 1 <= first <= last,
            r matches Ok(range) ==> range.low() == first && range.high() == last,
            r matches Err(e) ==> e == (if first == 0 || last == 0 {
                RangeError::ZeroPort
            } else {
                RangeError::Inverted
            }),
    {
        if first == 0 || last == 0 {
            Err(RangeError::ZeroPort)
        } else if last < first {
            Err(RangeError::Inverted)
        } else {
            Ok(PortRange { first, last })
        }
    }

    pub fn first(&self) -> (p: u16)
        ensures
            p == self.low(),
            1 <= p <= self.high(),
    {
        proof {
            use_type_invariant(self);
        }
        self.first
    }

    pub fn last(&self) -> (p: u16)
        ensures
            p == self.high(),
            1 <= self.low() <= p,
    {
        proof {
            use_type_invariant(self);
        }
        self.last
    }

    pub fn includes(&self, port: u16) -> (b: bool)
        ensures
            b == self.contains(port),
    {
        self.first <= port && port <= self.last
    }

    pub fn len(&self) -> (n: u32)
        ensures
            n == self.size(),
            1 <= n <= 65535,
    {
        proof {
            use_type_invariant(self);
        }
        let first: u32 = self.first as u32;
        let last: u32 = self.last as u32;
        last - first + 1
    }
}

} // verus!
