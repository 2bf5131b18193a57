//! Amounts of motes, the token in which execution is paid for.
use crate::gas::Gas;
use crate::u512::{u512_modulus, U512};
use vstd::prelude::*;

verus! {

/// An amount of motes.
#[derive(Clone, Copy, Debug, Eq, Ord)]
pub struct Motes(U512);

impl View for Motes {
    type V = nat;

    closed spec fn view(&self) -> nat {
        self.0@
    }
}

impl Motes {
    /// Every amount lies below 2^512.
    pub proof fn lemma_bounded(self)
        ensures
            self@ < u512_modulus(),
    {
        self.0.lemma_bounded();
    }

    /// The amount `value`.
    pub fn new(value: U512) -> (r: Motes)
        ensures
            r@ == value@,
    {
        Motes(value)
    }

    /// The amount as a number.
    pub fn value(&self) -> (r: U512)
        ensures
            r@ == self@,
    {
        self.0
    }

    /// The amount `value`, given as a 64-bit integer.
    pub fn from_u64(value: u64) -> (r: Motes)
        ensures
            r@ == value,
    {
        let v = U512::from(value);
        proof {
            U512::lemma_of_u64(value);
        }
        Motes(v)
    }

    /// The price of `gas` at `conv_rate` motes per unit of gas, or `None` when
    /// that price does not fit in 512 bits.
    pub fn from_gas(gas: Gas, conv_rate: u64) -> (r: Option<Motes>)
        ensures
            r is Some <==> gas@ * conv_rate < u512_modulus(),
            r matches Some(m) ==> m@ == gas@ * conv_rate,
    {
        let rate = U512::from(conv_rate);
        proof {
            U512::lemma_of_u64(conv_rate);
        }
        match gas.value().checked_mul(rate) {
            Some(v) => Some(Motes::new(v)),
            None => None,
        }
    }
}

} // verus!
