//! Laws of the numeric types: how their operations undo one another and how they are
//! ordered.
use crate::gas::Gas;
use crate::motes::Motes;
use crate::u512::{u512_modulus, U512};
use core::cmp::Ordering;
use vstd::prelude::*;
use vstd::std_specs::cmp::{PartialEqSpec, PartialOrdSpec};
use vstd::std_specs::ops::{AddSpec, DivSpec, MulSpec, SubSpec};

verus! {

/// Adding an amount of gas and taking it away again gives back the amount one started with.
pub proof fn lemma_add_then_sub(a: Gas, b: Gas)
    requires
        a.add_req(b),
    ensures
        a.add_spec(b).sub_req(b),
        a.add_spec(b).sub_spec(b) == a,
{
    Gas::lemma_value_of(a@ + b@);
    let c = a.add_spec(b);
    a.lemma_bounded();
    Gas::lemma_with_value(a);
    assert((c@ - b@) as nat == a@);
}

/// Multiplying an amount of gas by a nonzero amount and dividing by it again gives back
/// the amount one started with.
pub proof fn lemma_mul_then_div(a: Gas, b: Gas)
    requires
        a.mul_req(b),
        b@ != 0,
    ensures
        a.mul_spec(b).div_req(b),
        a.mul_spec(b).div_spec(b) == a,
{
    Gas::lemma_value_of(a@ * b@);
    vstd::arithmetic::div_mod::lemma_div_multiples_vanish(a@ as int, b@ as int);
    assert(b@ * a@ == a@ * b@) by (nonlinear_arith);
    Gas::lemma_with_value(a);
}

/// The order of the operands of a sum of gas does not matter.
pub proof fn lemma_add_commutes(a: Gas, b: Gas)
    requires
        a.add_req(b),
    ensures
        b.add_req(a),
        a.add_spec(b) == b.add_spec(a),
{
}

/// Buying gas with motes at a nonzero rate and pricing that gas at the same rate never
/// gives more motes than were spent, loses less than the rate, and always fits.
pub proof fn lemma_motes_to_gas_and_back(m: Motes, rate: u64)
    requires
        rate > 0,
    ensures
        (m@ / (rate as nat)) * rate <= m@,
        m@ - (m@ / (rate as nat)) * rate < rate,
        (m@ / (rate as nat)) * rate < u512_modulus(),
{
    let r = rate as int;
    vstd::arithmetic::div_mod::lemma_fundamental_div_mod(m@ as int, r);
    m.lemma_bounded();
    assert((m@ / (rate as nat)) * rate == r * (m@ as int / r)) by (nonlinear_arith)
        requires
            r == rate as int,
    ;
}

/// Amounts of gas are totally ordered by their values; the order and `==` agree with
/// equality of the amounts, and swapping the operands swaps less and greater.
pub proof fn lemma_gas_order(a: Gas, b: Gas)
    ensures
        PartialOrdSpec::partial_cmp_spec(&a, &b) is Some,
        PartialEqSpec::eq_spec(&a, &b) <==> a == b,
        (PartialOrdSpec::partial_cmp_spec(&a, &b) == Some(Ordering::Equal)) <==> a == b,
        (PartialOrdSpec::partial_cmp_spec(&a, &b) == Some(Ordering::Less)) <==> (PartialOrdSpec::partial_cmp_spec(&b, &a) == Some(
            Ordering::Greater,
        )),
{
    if a@ == b@ {
        Gas::lemma_with_value(a);
        Gas::lemma_with_value(b);
    }
}

/// Numbers are totally ordered by their values; the order and `==` agree with equality
/// of the representations, and swapping the operands swaps less and greater.
pub proof fn lemma_u512_order(a: U512, b: U512)
    ensures
        PartialOrdSpec::partial_cmp_spec(&a, &b) is Some,
        PartialEqSpec::eq_spec(&a, &b) <==> a == b,
        (PartialOrdSpec::partial_cmp_spec(&a, &b) == Some(Ordering::Equal)) <==> a == b,
        (PartialOrdSpec::partial_cmp_spec(&a, &b) == Some(Ordering::Less)) <==> (PartialOrdSpec::partial_cmp_spec(&b, &a) == Some(
            Ordering::Greater,
        )),
{
    if a@ == b@ {
        a.lemma_view_injective(b);
    }
}

} // verus!
