//! Equality and ordering of the numeric types, by the numbers they denote.
use crate::gas::Gas;
use crate::motes::Motes;
use crate::u512::U512;
use core::cmp::Ordering;
use vstd::prelude::*;
use vstd::std_specs::cmp::{PartialEqSpecImpl, PartialOrdSpecImpl};

verus! {

/// The order of two numbers.
pub open spec fn order_of(a: nat, b: nat) -> Ordering {
    if a < b {
        Ordering::Less
    } else if a == b {
        Ordering::Equal
    } else {
        Ordering::Greater
    }
}

impl PartialEq for U512 {
    fn eq(&self, other: &U512) -> (r: bool) {
        let (_, below) = self.overflowing_sub(*other);
        let (_, above) = other.overflowing_sub(*self);
        !below && !above
    }
}

impl PartialEqSpecImpl for U512 {
    open spec fn obeys_eq_spec() -> bool {
        true
    }

    open spec fn eq_spec(&self, other: &U512) -> bool {
        self@ == other@
    }
}

impl PartialOrd for U512 {
    fn partial_cmp(&self, other: &U512) -> (r: Option<Ordering>) {
        let (_, below) = self.overflowing_sub(*other);
        let (_, above) = other.overflowing_sub(*self);
        if below {
            Some(Ordering::Less)
        } else if above {
            Some(Ordering::Greater)
        } else {
            Some(Ordering::Equal)
        }
    }
}

impl PartialOrdSpecImpl for U512 {
    open spec fn obeys_partial_cmp_spec() -> bool {
        true
    }

    open spec fn partial_cmp_spec(&self, other: &U512) -> Option<Ordering> {
        Some(order_of(self@, other@))
    }
}

impl PartialEq for Gas {
    fn eq(&self, other: &Gas) -> (r: bool) {
        self.value() == other.value()
    }
}

impl PartialEqSpecImpl for Gas {
    open spec fn obeys_eq_spec() -> bool {
        true
    }

    open spec fn eq_spec(&self, other: &Gas) -> bool {
        self@ == other@
    }
}

impl PartialOrd for Gas {
    fn partial_cmp(&self, other: &Gas) -> (r: Option<Ordering>) {
        self.value().partial_cmp(&other.value())
    }
}

impl PartialOrdSpecImpl for Gas {
    open spec fn obeys_partial_cmp_spec() -> bool {
        true
    }

    open spec fn partial_cmp_spec(&self, other: &Gas) -> Option<Ordering> {
        Some(order_of(self@, other@))
    }
}

impl PartialEq for Motes {
    fn eq(&self, other: &Motes) -> (r: bool) {
        self.value() == other.value()
    }
}

impl PartialEqSpecImpl for Motes {
    open spec fn obeys_eq_spec() -> bool {
        true
    }

    open spec fn eq_spec(&self, other: &Motes) -> bool {
        self@ == other@
    }
}

impl PartialOrd for Motes {
    fn partial_cmp(&self, other: &Motes) -> (r: Option<Ordering>) {
        self.value().partial_cmp(&other.value())
    }
}

impl PartialOrdSpecImpl for Motes {
    open spec fn obeys_partial_cmp_spec() -> bool {
        true
    }

    open spec fn partial_cmp_spec(&self, other: &Motes) -> Option<Ordering> {
        Some(order_of(self@, other@))
    }
}

} // verus!
