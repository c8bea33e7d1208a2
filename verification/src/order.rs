//! The order of kernel versions.

use core::cmp::Ordering;
use vstd::prelude::*;
use vstd::std_specs::cmp::PartialOrdSpecImpl;
use crate::version::Version;

verus! {

impl Version {
    /// `self` is an older version than `other`: its major number is smaller,
    /// or the major numbers agree and its minor number is smaller, or both
    /// agree and its patch number is smaller.
    pub open spec fn precedes(self, other: Version) -> bool {
        ||| self.major < other.major
        ||| self.major == other.major && self.minor < other.minor
        ||| self.major == other.major && self.minor == other.minor && self.patch < other.patch
    }

    /// Where `self` stands relative to `other`.
    pub open spec fn order(self, other: Version) -> Ordering {
        if self.precedes(other) {
            Ordering::Less
        } else if other.precedes(self) {
            Ordering::Greater
        } else {
            Ordering::Equal
        }
    }

    /// Compares two versions by major, then minor, then patch number.
    pub fn cmp(&self, other: &Version) -> (r: Ordering)
        ensures
            r == self.order(*other),
    {
        if self.major != other.major {
            if self.major < other.major {
                Ordering::Less
            } else {
                Ordering::Greater
            }
        } else if self.minor != other.minor {
            if self.minor < other.minor {
                Ordering::Less
            } else {
                Ordering::Greater
            }
        } else if self.patch != other.patch {
            if self.patch < other.patch {
                Ordering::Less
            } else {
                Ordering::Greater
            }
        } else {
            Ordering::Equal
        }
    }
}

impl PartialOrd for Version {
    fn partial_cmp(&self, other: &Version) -> (r: Option<Ordering>) {
        Some(self.cmp(other))
    }
}

impl PartialOrdSpecImpl for Version {
    open spec fn obeys_partial_cmp_spec() -> bool {
        true
    }

    open spec fn partial_cmp_spec(&self, other: &Version) -> Option<Ordering> {
        Some(self.order(*other))
    }
}

/// Of two versions exactly one holds: the first is older, they are equal, or
/// the second is older. The three-way comparison says which.
pub proof fn lemma_order_total(x: Version, y: Version)
    ensures
        x.precedes(y) || x == y || y.precedes(x),
        !(x.precedes(y) && x == y),
        !(x.precedes(y) && y.precedes(x)),
        !(x == y && y.precedes(x)),
        x.order(y) == Ordering::Less <==> x.precedes(y),
        x.order(y) == Ordering::Equal <==> x == y,
        x.order(y) == Ordering::Greater <==> y.precedes(x),
{
}

/// If `x` is older than `y` and `y` older than `z`, then `x` is older than `z`.
pub proof fn lemma_order_transitive(x: Version, y: Version, z: Version)
    requires
        x.precedes(y),
        y.precedes(z),
    ensures
        x.precedes(z),
{
}

} // verus!
