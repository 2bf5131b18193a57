//! Amounts of gas, the unit in which execution cost is measured.
use crate::motes::Motes;
use crate::u512::{decimal, u512_modulus, U512};
use vstd::prelude::*;
use vstd::std_specs::ops::{AddSpecImpl, DivSpecImpl, MulSpecImpl, SubSpecImpl};

verus! {

/// An amount of gas.
#[derive(Clone, Copy, Debug, Eq, Ord)]
pub struct Gas(U512);

impl View for Gas {
    type V = nat;

    closed spec fn view(&self) -> nat {
        self.0@
    }
}

impl Gas {
    /// The amount of gas that denotes `n`.
    pub closed spec fn with_value(n: nat) -> Gas {
        Gas(U512::of_nat(n))
    }

    /// Each amount is the one that its value names, and each value below 2^512 names an
    /// amount of that value.
    pub proof fn lemma_with_value(g: Gas)
        ensures
            Gas::with_value(g@) == g,
    {
        g.lemma_bounded();
        Gas::lemma_value_of(g@);
        Gas::with_value(g@).0.lemma_view_injective(g.0);
    }

    /// The amount named by a value below 2^512 has that value.
    pub proof fn lemma_value_of(n: nat)
        requires
            n < u512_modulus(),
        ensures
            Gas::with_value(n)@ == n,
    {
        U512::lemma_of_nat(n);
    }

    /// Every amount lies below 2^512.
    pub proof fn lemma_bounded(self)
        ensures
            self@ < u512_modulus(),
    {
        self.0.lemma_bounded();
    }

    /// The amount `value`.
    pub fn new(value: U512) -> (r: Gas)
        ensures
            r@ == value@,
    {
        Gas(value)
    }

    /// The amount as a number.
    pub fn value(&self) -> (r: U512)
        ensures
            r@ == self@,
    {
        self.0
    }

    /// The gas that `motes` buy at `conv_rate` motes per unit of gas, rounded down;
    /// `None` when `conv_rate` is zero.
    pub fn from_motes(motes: Motes, conv_rate: u64) -> (r: Option<Gas>)
        ensures
            r is Some <==> conv_rate != 0,
            r matches Some(g) ==> g@ == motes@ / (conv_rate as nat),
    {
        let rate = U512::from(conv_rate);
        proof {
            U512::lemma_of_u64(conv_rate);
        }
        match motes.value().checked_div(rate) {
            Some(v) => Some(Gas::new(v)),
            None => None,
        }
    }

    /// The sum, or `None` when it does not fit in 512 bits.
    pub fn checked_add(&self, rhs: Gas) -> (r: Option<Gas>)
        ensures
            r is Some <==> self@ + rhs@ < u512_modulus(),
            r matches Some(g) ==> g@ == self@ + rhs@,
    {
        match self.0.checked_add(rhs.value()) {
            Some(v) => Some(Gas::new(v)),
            None => None,
        }
    }

    /// The amount as a 64-bit integer; it must fit.
    pub fn as_u64(&self) -> (r: u64)
        requires
            self@ <= u64::MAX,
        ensures
            r == self@,
    {
        self.0.as_u64()
    }

    /// The amount written in decimal, as the engine displays it.
    pub fn to_string(&self) -> (r: String)
        ensures
            r@ == decimal(self@),
    {
        self.0.to_dec_string()
    }

    /// The amount `value`, given as a 64-bit integer.
    pub fn from_u64(value: u64) -> (r: Gas)
        ensures
            r@ == value,
    {
        let v = U512::from(value);
        proof {
            U512::lemma_of_u64(value);
        }
        Gas(v)
    }
}

impl Default for Gas {
    fn default() -> (r: Gas)
        ensures
            r@ == 0,
    {
        Gas(U512::zero())
    }
}

impl std::ops::Add for Gas {
    type Output = Gas;

    fn add(self, rhs: Gas) -> (r: Gas)
        ensures
            r@ == self@ + rhs@,
    {
        let val = self.value() + rhs.value();
        let r = Gas::new(val);
        proof {
            Gas::lemma_with_value(r);
        }
        r
    }
}

impl AddSpecImpl for Gas {
    open spec fn obeys_add_spec() -> bool {
        true
    }

    open spec fn add_req(self, rhs: Gas) -> bool {
        self@ + rhs@ < u512_modulus()
    }

    open spec fn add_spec(self, rhs: Gas) -> Gas {
        Gas::with_value(self@ + rhs@)
    }
}

impl std::ops::Sub for Gas {
    type Output = Gas;

    fn sub(self, rhs: Gas) -> (r: Gas)
        ensures
            r@ == self@ - rhs@,
    {
        let val = self.value() - rhs.value();
        let r = Gas::new(val);
        proof {
            Gas::lemma_with_value(r);
        }
        r
    }
}

impl SubSpecImpl for Gas {
    open spec fn obeys_sub_spec() -> bool {
        true
    }

    open spec fn sub_req(self, rhs: Gas) -> bool {
        rhs@ <= self@
    }

    open spec fn sub_spec(self, rhs: Gas) -> Gas {
        Gas::with_value((self@ - rhs@) as nat)
    }
}

impl std::ops::Div for Gas {
    type Output = Gas;

    fn div(self, rhs: Gas) -> (r: Gas)
        ensures
            r@ == self@ / rhs@,
    {
        let val = self.value() / rhs.value();
        let r = Gas::new(val);
        proof {
            Gas::lemma_with_value(r);
        }
        r
    }
}

impl DivSpecImpl for Gas {
    open spec fn obeys_div_spec() -> bool {
        true
    }

    open spec fn div_req(self, rhs: Gas) -> bool {
        rhs@ != 0
    }

    open spec fn div_spec(self, rhs: Gas) -> Gas {
        Gas::with_value(self@ / rhs@)
    }
}

impl std::ops::Mul for Gas {
    type Output = Gas;

    fn mul(self, rhs: Gas) -> (r: Gas)
        ensures
            r@ == self@ * rhs@,
    {
        let val = self.value() * rhs.value();
        let r = Gas::new(val);
        proof {
            Gas::lemma_with_value(r);
        }
        r
    }
}

impl MulSpecImpl for Gas {
    open spec fn obeys_mul_spec() -> bool {
        true
    }

    open spec fn mul_req(self, rhs: Gas) -> bool {
        self@ * rhs@ < u512_modulus()
    }

    open spec fn mul_spec(self, rhs: Gas) -> Gas {
        Gas::with_value(self@ * rhs@)
    }
}

} // verus!
