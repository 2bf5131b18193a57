//! Fixed-width 512-bit unsigned integers, stored as eight 64-bit limbs with
//! the most significant limb first.
use vstd::arithmetic::div_mod::{
    lemma_div_denominator, lemma_fundamental_div_mod, lemma_fundamental_div_mod_converse,
    lemma_mod_breakdown, lemma_small_mod,
};
use vstd::arithmetic::power2::{lemma2_to64, lemma_pow2_adds, lemma_pow2_pos, pow2};
use vstd::bits::lemma_u64_shr_is_div;
use vstd::prelude::*;

verus! {

/// The radix of one limb, 2^64.
pub open spec fn limb_base() -> nat {
    0x1_0000_0000_0000_0000nat
}

/// `limb_base()` raised to the power `n`.
pub open spec fn limb_pow(n: nat) -> nat
    decreases n,
{
    if n == 0 {
        1
    } else {
        limb_pow((n - 1) as nat) * limb_base()
    }
}

/// 2^512: one more than the largest value a `U512` holds.
pub open spec fn u512_modulus() -> nat {
    limb_pow(8)
}

/// The number that a sequence of limbs denotes, most significant limb first.
pub open spec fn limbs_val(s: Seq<u64>) -> nat
    decreases s.len(),
{
    if s.len() == 0 {
        0
    } else {
        limbs_val(s.drop_last()) * limb_base() + s.last() as nat
    }
}

proof fn lemma_limb_pow_pos(n: nat)
    ensures
        limb_pow(n) >= 1,
    decreases n,
{
    if n > 0 {
        lemma_limb_pow_pos((n - 1) as nat);
        assert(limb_pow((n - 1) as nat) * limb_base() >= 1) by (nonlinear_arith)
            requires
                limb_pow((n - 1) as nat) >= 1,
                limb_base() >= 1,
        ;
    }
}

/// `n` limbs denote a number below `limb_pow(n)`.
proof fn lemma_val_bound(s: Seq<u64>)
    ensures
        limbs_val(s) < limb_pow(s.len()),
    decreases s.len(),
{
    if s.len() > 0 {
        lemma_val_bound(s.drop_last());
        let v = limbs_val(s.drop_last());
        let p = limb_pow((s.len() - 1) as nat);
        let l = s.last() as nat;
        assert(v * limb_base() + l < p * limb_base()) by (nonlinear_arith)
            requires
                v < p,
                l < limb_base(),
        ;
    }
}

/// Splitting the limbs at `k`: the leading part is scaled by the weight of the rest.
proof fn lemma_val_split(s: Seq<u64>, k: int)
    requires
        0 <= k <= s.len(),
    ensures
        limbs_val(s) == limbs_val(s.take(k)) * limb_pow((s.len() - k) as nat) + limbs_val(
            s.skip(k),
        ),
    decreases s.len(),
{
    if k == s.len() {
        assert(s.take(k) =~= s);
        assert(s.skip(k) =~= Seq::<u64>::empty());
        assert(limb_pow((s.len() - k) as nat) == 1);
    } else {
        let d = s.drop_last();
        lemma_val_split(d, k);
        assert(d.take(k) =~= s.take(k));
        assert(d.skip(k) =~= s.skip(k).drop_last());
        assert(s.skip(k).last() == s.last());
        assert(limbs_val(s.skip(k)) == limbs_val(d.skip(k)) * limb_base() + s.last() as nat);
        assert(limbs_val(s) == limbs_val(d) * limb_base() + s.last() as nat);
        let a = limbs_val(s.take(k));
        let p = limb_pow((d.len() - k) as nat);
        let c = limbs_val(d.skip(k));
        assert(limb_pow((s.len() - k) as nat) == p * limb_base());
        assert((a * p + c) * limb_base() + s.last() == a * (p * limb_base()) + (c * limb_base()
            + s.last())) by (nonlinear_arith);
    }
}

/// A run of zero limbs denotes zero.
proof fn lemma_val_zeros(s: Seq<u64>)
    requires
        forall|i: int| 0 <= i < s.len() ==> s[i] == 0,
    ensures
        limbs_val(s) == 0,
    decreases s.len(),
{
    if s.len() > 0 {
        lemma_val_zeros(s.drop_last());
    }
}

/// Peeling the leading limb off a suffix of the limbs.
proof fn lemma_val_skip_step(s: Seq<u64>, i: int)
    requires
        0 < i <= s.len(),
    ensures
        limbs_val(s.skip(i - 1)) == s[i - 1] * limb_pow((s.len() - i) as nat) + limbs_val(
            s.skip(i),
        ),
{
    let t = s.skip(i - 1);
    lemma_val_split(t, 1);
    assert(t.skip(1) =~= s.skip(i));
    let h = t.take(1);
    assert(h.drop_last() =~= Seq::<u64>::empty());
    assert(limbs_val(h.drop_last()) == 0);
    assert(limbs_val(h) == s[i - 1]);
}

/// The limbs of a number that a carry-free operation rewrote from position `i` on.
proof fn lemma_skip_unchanged(old: Seq<u64>, new: Seq<u64>, i: int)
    requires
        0 < i <= old.len(),
        new.len() == old.len(),
        forall|j: int| i <= j < old.len() ==> new[j] == old[j],
    ensures
        new.skip(i) == old.skip(i),
{
    assert(new.skip(i) =~= old.skip(i));
}


/// The limb weights are powers of two.
proof fn lemma_limb_pow_is_pow2(n: nat)
    ensures
        limb_pow(n) == pow2(64 * n),
    decreases n,
{
    if n == 0 {
        lemma2_to64();
    } else {
        lemma_limb_pow_is_pow2((n - 1) as nat);
        lemma2_to64();
        lemma_pow2_adds(64 * (n - 1) as nat, 64);
        assert(64 * (n - 1) as nat + 64 == 64 * n);
    }
}

/// A leading part of the limbs never denotes more than the whole.
proof fn lemma_val_take_le(s: Seq<u64>, k: int)
    requires
        0 <= k <= s.len(),
    ensures
        limbs_val(s.take(k)) <= limbs_val(s),
        limbs_val(s.take(k)) <= limbs_val(s.take(k)) * limb_pow((s.len() - k) as nat),
{
    lemma_val_split(s, k);
    lemma_limb_pow_pos((s.len() - k) as nat);
    let a = limbs_val(s.take(k));
    let p = limb_pow((s.len() - k) as nat);
    assert(a <= a * p) by (nonlinear_arith)
        requires
            p >= 1,
    ;
}

/// Extending a leading part by one limb.
proof fn lemma_val_take_step(s: Seq<u64>, k: int)
    requires
        0 <= k < s.len(),
    ensures
        limbs_val(s.take(k + 1)) == limbs_val(s.take(k)) * limb_base() + s[k],
{
    assert(s.take(k + 1).drop_last() =~= s.take(k));
}


/// Taking the next lower bit of `x`: the leading bits of `x` above position `s - 1`
/// are twice those above position `s`, plus that bit.
proof fn lemma_next_bit(x: u64, s: u64)
    requires
        1 <= s <= 64,
    ensures
        ((x >> ((s - 1) as u64)) & 1) <= 1,
        x as nat / pow2((s - 1) as nat) == 2 * (x as nat / pow2(s as nat)) + ((x >> ((s
            - 1) as u64)) & 1),
{
    let k = (s - 1) as u64;
    lemma_u64_shr_is_div(x, k);
    let y = x >> k;
    assert((y & 1) == y % 2 && (y & 1) <= 1) by (bit_vector);
    lemma_pow2_pos(k as nat);
    lemma_pow2_adds(k as nat, 1);
    lemma2_to64();
    lemma_div_denominator(x as int, pow2(k as nat) as int, 2);
    lemma_fundamental_div_mod(y as int, 2);
}


/// Equal numbers of equally many limbs have the same limbs.
proof fn lemma_val_injective(s: Seq<u64>, t: Seq<u64>)
    requires
        s.len() == t.len(),
        limbs_val(s) == limbs_val(t),
    ensures
        s == t,
    decreases s.len(),
{
    if s.len() > 0 {
        let v = limbs_val(s) as int;
        let b = limb_base() as int;
        lemma_fundamental_div_mod_converse(v, b, limbs_val(s.drop_last()) as int, s.last() as int);
        lemma_fundamental_div_mod_converse(v, b, limbs_val(t.drop_last()) as int, t.last() as int);
        lemma_val_injective(s.drop_last(), t.drop_last());
        assert forall|i: int| 0 <= i < s.len() implies s[i] == t[i] by {
            if i < s.len() - 1 {
                assert(s[i] == s.drop_last()[i]);
                assert(t[i] == t.drop_last()[i]);
            }
        }
        assert(s =~= t);
    } else {
        assert(s =~= t);
    }
}


/// The `k` lowest limbs of `n`, most significant first.
pub open spec fn limbs_of(n: nat, k: nat) -> Seq<u64>
    decreases k,
{
    if k == 0 {
        Seq::empty()
    } else {
        limbs_of(n / limb_base(), (k - 1) as nat).push((n % limb_base()) as u64)
    }
}

/// The `k` lowest limbs of `n` denote `n` modulo `limb_pow(k)`.
proof fn lemma_limbs_of(n: nat, k: nat)
    ensures
        limbs_of(n, k).len() == k,
        limbs_val(limbs_of(n, k)) == n % limb_pow(k),
    decreases k,
{
    if k == 0 {
        assert(n % 1 == 0);
    } else {
        let b = limb_base();
        lemma_limbs_of(n / b, (k - 1) as nat);
        let s = limbs_of(n, k);
        assert(s.drop_last() =~= limbs_of(n / b, (k - 1) as nat));
        let p = limb_pow((k - 1) as nat);
        lemma_limb_pow_pos((k - 1) as nat);
        lemma_mod_breakdown(n as int, b as int, p as int);
        assert(p * b == b * p) by (nonlinear_arith);
        assert(limbs_val(s) == ((n / b) % p) * b + n % b);
        assert(((n / b) % p) * b == b * ((n / b) % p)) by (nonlinear_arith);
    }
}


/// The character of a decimal digit.
pub open spec fn digit_char(d: nat) -> char {
    (48 + d) as char
}

/// `n` written in decimal, without leading zeros.
pub open spec fn decimal(n: nat) -> Seq<char>
    decreases n,
{
    if n < 10 {
        seq![digit_char(n)]
    } else {
        decimal(n / 10).push(digit_char(n % 10))
    }
}

/// The characters of the digits `ds`, last digit first.
spec fn reversed_digits(ds: Seq<u8>) -> Seq<char>
    decreases ds.len(),
{
    if ds.len() == 0 {
        Seq::empty()
    } else {
        seq![digit_char(ds.last() as nat)] + reversed_digits(ds.drop_last())
    }
}

proof fn lemma_reversed_digits_skip(ds: Seq<u8>, i: int)
    requires
        0 < i <= ds.len(),
    ensures
        reversed_digits(ds.subrange(i - 1, ds.len() as int)) == reversed_digits(
            ds.subrange(i, ds.len() as int),
        ) + seq![digit_char(ds[i - 1] as nat)],
    decreases ds.len() - i,
{
    let a = ds.subrange(i - 1, ds.len() as int);
    let b = ds.subrange(i, ds.len() as int);
    if i == ds.len() {
        assert(a.drop_last() =~= Seq::<u8>::empty());
        assert(b =~= Seq::<u8>::empty());
        assert(reversed_digits(a.drop_last()) =~= Seq::<char>::empty());
        assert(reversed_digits(a) =~= seq![digit_char(ds[i - 1] as nat)]);
    } else {
        let d = ds.drop_last();
        lemma_reversed_digits_skip(d, i);
        assert(a.drop_last() =~= d.subrange(i - 1, d.len() as int));
        assert(b.drop_last() =~= d.subrange(i, d.len() as int));
        assert(reversed_digits(a) =~= seq![digit_char(ds.last() as nat)] + reversed_digits(
            a.drop_last(),
        ));
        assert(reversed_digits(b) =~= seq![digit_char(ds.last() as nat)] + reversed_digits(
            b.drop_last(),
        ));
    }
}


/// The decimal digit `d` as a string.
fn digit_str(d: u8) -> (r: &'static str)
    requires
        d < 10,
    ensures
        r@ == seq![digit_char(d as nat)],
{
    proof {
        reveal_strlit("0");
        reveal_strlit("1");
        reveal_strlit("2");
        reveal_strlit("3");
        reveal_strlit("4");
        reveal_strlit("5");
        reveal_strlit("6");
        reveal_strlit("7");
        reveal_strlit("8");
        reveal_strlit("9");
    }
    let r = match d {
        0 => "0",
        1 => "1",
        2 => "2",
        3 => "3",
        4 => "4",
        5 => "5",
        6 => "6",
        7 => "7",
        8 => "8",
        _ => "9",
    };
    proof {
        assert(r@ =~= seq![digit_char(d as nat)]);
    }
    r
}

/// An unsigned integer of 512 bits.
#[derive(Clone, Copy, Debug, Eq, Ord)]
pub struct U512 {
    limbs: [u64; 8],
}

impl View for U512 {
    type V = nat;

    closed spec fn view(&self) -> nat {
        limbs_val(self.limbs@)
    }
}

impl U512 {
    /// Every value lies below 2^512.
    pub proof fn lemma_bounded(self)
        ensures
            self@ < u512_modulus(),
    {
        lemma_val_bound(self.limbs@);
    }

    /// A value has exactly one representation.
    pub proof fn lemma_view_injective(self, other: U512)
        requires
            self@ == other@,
        ensures
            self == other,
    {
        lemma_val_injective(self.limbs@, other.limbs@);
        assert(self.limbs =~= other.limbs);
    }

    /// The value zero.
    pub fn zero() -> (r: U512)
        ensures
            r@ == 0,
    {
        let r = U512 { limbs: [0u64; 8] };
        proof {
            lemma_val_zeros(r.limbs@);
        }
        r
    }

    /// The value of a 64-bit integer.
    pub fn from_u64(v: u64) -> (r: U512)
        ensures
            r@ == v,
    {
        let mut limbs = [0u64; 8];
        limbs[7] = v;
        let r = U512 { limbs };
        proof {
            let s = r.limbs@;
            lemma_val_zeros(s.drop_last());
            assert(s.last() == v);
        }
        r
    }


    /// The value as a 64-bit integer; the value must fit.
    pub fn as_u64(&self) -> (r: u64)
        requires
            self@ <= u64::MAX,
        ensures
            r == self@,
    {
        proof {
            lemma_val_take_step(self.limbs@, 7);
            assert(self.limbs@.take(8) =~= self.limbs@);
            let h = limbs_val(self.limbs@.take(7));
            assert(h == 0) by (nonlinear_arith)
                requires
                    h * limb_base() + self.limbs[7] <= u64::MAX,
                    limb_base() == u64::MAX + 1,
            ;
        }
        self.limbs[7]
    }


    /// The value written in decimal.
    pub fn to_dec_string(&self) -> (r: String)
        ensures
            r@ == decimal(self@),
    {
        let ten = U512::from_u64(10);
        let mut v = *self;
        let mut digits: Vec<u8> = Vec::new();
        proof {
            assert(decimal(self@) =~= decimal(v@) + reversed_digits(digits@));
        }
        loop
            invariant_except_break
                decimal(self@) == decimal(v@) + reversed_digits(digits@),
            invariant
                ten@ == 10,
                forall|j: int| 0 <= j < digits@.len() ==> digits@[j] < 10,
            ensures
                decimal(self@) == reversed_digits(digits@),
            decreases v@,
        {
            let (q, r) = v.div_mod(ten);
            let d = r.as_u64() as u8;
            let ghost before = digits@;
            digits.push(d);
            proof {
                assert(digits@.drop_last() =~= before);
                assert(reversed_digits(digits@) == seq![digit_char(d as nat)] + reversed_digits(
                    before,
                ));
            }
            if q.is_zero() {
                proof {
                    assert(decimal(v@) == seq![digit_char(d as nat)]);
                    assert(decimal(self@) =~= reversed_digits(digits@));
                }
                break;
            }
            proof {
                assert(decimal(v@) == decimal(q@).push(digit_char(d as nat)));
                assert(decimal(self@) =~= decimal(q@) + reversed_digits(digits@));
            }
            v = q;
        }
        let mut out = String::new();
        let mut i = digits.len();
        proof {
            assert(digits@.subrange(i as int, i as int) =~= Seq::<u8>::empty());
            assert(out@ =~= reversed_digits(digits@.subrange(i as int, digits@.len() as int)));
        }
        while i > 0
            invariant
                i <= digits@.len(),
                out@ == reversed_digits(digits@.subrange(i as int, digits@.len() as int)),
                forall|j: int| 0 <= j < digits@.len() ==> digits@[j] < 10,
            decreases i,
        {
            let d = digits[i - 1];
            let c = digit_str(d);
            out.append(c);
            proof {
                lemma_reversed_digits_skip(digits@, i as int);
            }
            i = i - 1;
        }
        proof {
            assert(digits@.subrange(0, digits@.len() as int) =~= digits@);
        }
        out
    }

    /// Sum modulo 2^512, with a flag that tells whether the true sum reached 2^512.
    pub fn overflowing_add(self, other: U512) -> (r: (U512, bool))
        ensures
            r.0@ + (if r.1 { u512_modulus() } else { 0 }) == self@ + other@,
    {
        let mut limbs = [0u64; 8];
        let mut carry: u64 = 0;
        let mut i: usize = 8;
        while i > 0
            invariant
                i <= 8,
                carry <= 1,
                limbs_val(limbs@.skip(i as int)) + carry * limb_pow((8 - i) as nat) == limbs_val(
                    self.limbs@.skip(i as int),
                ) + limbs_val(other.limbs@.skip(i as int)),
            decreases i,
        {
            let ghost old_limbs = limbs@;
            let ghost old_carry = carry;
            let j = i - 1;
            let t: u128 = self.limbs[j] as u128 + other.limbs[j] as u128 + carry as u128;
            if t >= 0x1_0000_0000_0000_0000u128 {
                limbs[j] = (t - 0x1_0000_0000_0000_0000u128) as u64;
                carry = 1;
            } else {
                limbs[j] = t as u64;
                carry = 0;
            }
            proof {
                let p = limb_pow((8 - i) as nat);
                lemma_skip_unchanged(old_limbs, limbs@, i as int);
                lemma_val_skip_step(limbs@, i as int);
                lemma_val_skip_step(self.limbs@, i as int);
                lemma_val_skip_step(other.limbs@, i as int);
                assert(limb_pow((8 - j) as nat) == p * limb_base());
                let d = limbs[j as int] as int;
                assert(d + carry * limb_base() == self.limbs[j as int] + other.limbs[j as int]
                    + old_carry);
                assert(d * p + carry * (p * limb_base()) == (self.limbs[j as int] as int) * p
                    + (other.limbs[j as int] as int) * p + old_carry * p) by (nonlinear_arith)
                    requires
                        d + carry * limb_base() == self.limbs[j as int] + other.limbs[j as int]
                            + old_carry,
                ;
            }
            i = j;
        }
        proof {
            assert(limbs@.skip(0) =~= limbs@);
            assert(self.limbs@.skip(0) =~= self.limbs@);
            assert(other.limbs@.skip(0) =~= other.limbs@);
        }
        (U512 { limbs }, carry == 1)
    }

    /// Difference modulo 2^512, with a flag that tells whether `other` exceeded `self`.
    pub fn overflowing_sub(self, other: U512) -> (r: (U512, bool))
        ensures
            r.0@ + other@ == self@ + (if r.1 { u512_modulus() } else { 0 }),
            r.1 <==> self@ < other@,
    {
        let mut limbs = [0u64; 8];
        let mut borrow: u64 = 0;
        let mut i: usize = 8;
        while i > 0
            invariant
                i <= 8,
                borrow <= 1,
                limbs_val(limbs@.skip(i as int)) + limbs_val(other.limbs@.skip(i as int))
                    == limbs_val(self.limbs@.skip(i as int)) + borrow * limb_pow((8 - i) as nat),
            decreases i,
        {
            let ghost old_limbs = limbs@;
            let ghost old_borrow = borrow;
            let j = i - 1;
            let need: u128 = other.limbs[j] as u128 + borrow as u128;
            let have: u128 = self.limbs[j] as u128;
            if have >= need {
                limbs[j] = (have - need) as u64;
                borrow = 0;
            } else {
                limbs[j] = (have + 0x1_0000_0000_0000_0000u128 - need) as u64;
                borrow = 1;
            }
            proof {
                let p = limb_pow((8 - i) as nat);
                lemma_skip_unchanged(old_limbs, limbs@, i as int);
                lemma_val_skip_step(limbs@, i as int);
                lemma_val_skip_step(self.limbs@, i as int);
                lemma_val_skip_step(other.limbs@, i as int);
                assert(limb_pow((8 - j) as nat) == p * limb_base());
                let d = limbs[j as int] as int;
                assert(d + other.limbs[j as int] + old_borrow == self.limbs[j as int] + borrow
                    * limb_base());
                assert(d * p + (other.limbs[j as int] as int) * p + old_borrow * p == (
                self.limbs[j as int] as int) * p + borrow * (p * limb_base())) by (nonlinear_arith)
                    requires
                        d + other.limbs[j as int] + old_borrow == self.limbs[j as int] + borrow
                            * limb_base(),
                ;
            }
            i = j;
        }
        let r = U512 { limbs };
        proof {
            assert(limbs@.skip(0) =~= limbs@);
            assert(self.limbs@.skip(0) =~= self.limbs@);
            assert(other.limbs@.skip(0) =~= other.limbs@);
            r.lemma_bounded();
            self.lemma_bounded();
            other.lemma_bounded();
        }
        (r, borrow == 1)
    }


    /// The sum, or `None` when it does not fit in 512 bits.
    pub fn checked_add(self, other: U512) -> (r: Option<U512>)
        ensures
            r is Some <==> self@ + other@ < u512_modulus(),
            r matches Some(v) ==> v@ == self@ + other@,
    {
        let (v, over) = self.overflowing_add(other);
        proof {
            v.lemma_bounded();
        }
        if over {
            None
        } else {
            Some(v)
        }
    }

    /// The difference, or `None` when `other` exceeds `self`.
    pub fn checked_sub(self, other: U512) -> (r: Option<U512>)
        ensures
            r is Some <==> other@ <= self@,
            r matches Some(v) ==> v@ == self@ - other@,
    {
        let (v, under) = self.overflowing_sub(other);
        if under {
            None
        } else {
            Some(v)
        }
    }

    /// Whether the value is zero.
    pub fn is_zero(&self) -> (r: bool)
        ensures
            r <==> self@ == 0,
    {
        let (_, under) = U512::zero().overflowing_sub(*self);
        !under
    }

    /// `self * 2^64`, for a value whose leading limb is zero.
    fn shl_limb(self) -> (r: U512)
        requires
            self.limbs[0] == 0,
        ensures
            r@ == self@ * limb_base(),
    {
        let mut limbs = [0u64; 8];
        let mut i: usize = 0;
        while i < 7
            invariant
                i <= 7,
                limbs[7] == 0,
                forall|j: int| 0 <= j < i ==> limbs[j] == self.limbs[j + 1],
            decreases 7 - i,
        {
            limbs[i] = self.limbs[i + 1];
            i = i + 1;
        }
        let r = U512 { limbs };
        proof {
            assert(r.limbs@.drop_last() =~= self.limbs@.skip(1));
            assert(r@ == limbs_val(r.limbs@.drop_last()) * limb_base() + r.limbs@.last());
            lemma_val_skip_step(self.limbs@, 1);
            assert(self.limbs@.skip(0) =~= self.limbs@);
            assert(self.limbs@[0] == 0);
            assert(limbs_val(self.limbs@.skip(0)) == limbs_val(self.limbs@));
            assert(0 * limb_pow(7) == 0);
            assert(self@ == limbs_val(self.limbs@.skip(1)));
        }
        r
    }

    /// The product, or `None` when it does not fit in 512 bits.
    pub fn checked_mul(self, other: U512) -> (r: Option<U512>)
        ensures
            r is Some <==> self@ * other@ < u512_modulus(),
            r matches Some(v) ==> v@ == self@ * other@,
    {
        let mut acc = U512::zero();
        let mut j: usize = 0;
        proof {
            assert(other.limbs@.take(0) =~= Seq::<u64>::empty());
            assert(self@ * 0 == 0);
        }
        while j < 8
            invariant
                j <= 8,
                acc@ == self@ * limbs_val(other.limbs@.take(j as int)),
            decreases 8 - j,
        {
            let ghost t = limbs_val(other.limbs@.take(j as int));
            let ghost t1 = limbs_val(other.limbs@.take(j + 1));
            let ghost a = self@;
            let ghost o = other.limbs[j as int] as nat;
            proof {
                lemma_val_take_step(other.limbs@, j as int);
                lemma_val_take_le(other.limbs@, j + 1);
                assert(a * t1 == (a * t) * limb_base() + a * o) by (nonlinear_arith)
                    requires
                        t1 == t * limb_base() + o,
                ;
                assert(a * t1 <= a * other@) by (nonlinear_arith)
                    requires
                        t1 <= other@,
                ;
                assert(u512_modulus() == limb_pow(7) * limb_base());
            }
            if acc.limbs[0] != 0 {
                proof {
                    lemma_val_skip_step(acc.limbs@, 1);
                    assert(acc.limbs@.skip(0) =~= acc.limbs@);
                    let w = acc.limbs[0] as nat;
                    assert(acc@ * limb_base() >= limb_pow(7) * limb_base()) by (nonlinear_arith)
                        requires
                            acc@ >= w * limb_pow(7),
                            w >= 1,
                    ;
                }
                return None;
            }
            let shifted = acc.shl_limb();
            let (prod, spill) = self.mul_word_add(other.limbs[j], 0);
            if spill != 0 {
                proof {
                    assert(a * o >= u512_modulus()) by (nonlinear_arith)
                        requires
                            prod@ + spill * u512_modulus() == a * o,
                            spill >= 1,
                    ;
                }
                return None;
            }
            let (sum, over) = shifted.overflowing_add(prod);
            if over {
                return None;
            }
            proof {
                assert(spill == 0);
                assert(prod@ + spill * u512_modulus() == self@ * other.limbs[j as int] + 0);
                assert(spill * u512_modulus() == 0) by (nonlinear_arith)
                    requires
                        spill == 0,
                ;
                assert(prod@ == a * o);
                assert(sum@ == acc@ * limb_base() + a * o);
            }
            acc = sum;
            j = j + 1;
        }
        proof {
            assert(other.limbs@.take(8) =~= other.limbs@);
            acc.lemma_bounded();
        }
        Some(acc)
    }


    /// Quotient and remainder of the division by a nonzero `d`.
    pub fn div_mod(self, d: U512) -> (r: (U512, U512))
        requires
            d@ != 0,
        ensures
            r.0@ == self@ / d@,
            r.1@ == self@ % d@,
    {
        let mut q = U512::zero();
        let mut rem = U512::zero();
        let mut i: usize = 0;
        proof {
            assert(self.limbs@.take(0) =~= Seq::<u64>::empty());
            lemma_limb_pow_is_pow2(8);
            lemma2_to64();
        }
        while i < 8
            invariant
                i <= 8,
                d@ != 0,
                rem@ < d@,
                q@ * d@ + rem@ == limbs_val(self.limbs@.take(i as int)),
                limbs_val(self.limbs@.take(i as int)) < pow2(64 * i as nat),
                u512_modulus() == pow2(512),
            decreases 8 - i,
        {
            let x = self.limbs[i];
            let ghost high = limbs_val(self.limbs@.take(i as int));
            let mut s: u64 = 64;
            proof {
                lemma2_to64();
                assert(x as nat / pow2(64) == 0);
                assert(64 * i as nat + (64 - 64) == 64 * i as nat);
                assert(high * pow2(0) == high);
            }
            while s > 0
                invariant
                    i < 8,
                    s <= 64,
                    d@ != 0,
                    rem@ < d@,
                    x == self.limbs[i as int],
                    high == limbs_val(self.limbs@.take(i as int)),
                    q@ * d@ + rem@ == high * pow2((64 - s) as nat) + x as nat / pow2(s as nat),
                    high * pow2((64 - s) as nat) + x as nat / pow2(s as nat) < pow2(
                        (64 * i + (64 - s)) as nat,
                    ),
                    u512_modulus() == pow2(512),
                decreases s,
            {
                let bit = (x >> (s - 1)) & 1;
                let ghost prefix = high * pow2((64 - s) as nat) + x as nat / pow2(s as nat);
                let ghost k = (64 * i + (64 - s)) as nat;
                proof {
                    lemma_next_bit(x, s);
                    lemma_pow2_adds((64 - s) as nat, 1);
                    lemma_pow2_adds(k, 1);
                    lemma2_to64();
                    let p0 = pow2((64 - s) as nat);
                    let y0 = x as nat / pow2(s as nat);
                    let y1 = x as nat / pow2((s - 1) as nat);
                    assert((64 - s + 1) as nat == (64 - s) as nat + 1);
                    assert(pow2((64 - s + 1) as nat) == p0 * 2);
                    assert(high * (p0 * 2) + y1 == 2 * (high * p0 + y0) + bit) by (nonlinear_arith)
                        requires
                            y1 == 2 * y0 + bit,
                    ;
                    assert(k + 1 <= 512);
                    if k + 1 < 512 {
                        vstd::arithmetic::power2::lemma_pow2_strictly_increases(k + 1, 512);
                    }
                }
                let (r2, top) = rem.mul_word_add(2, bit);
                proof {
                    rem.lemma_bounded();
                    d.lemma_bounded();
                    r2.lemma_bounded();
                    assert(top <= 1) by (nonlinear_arith)
                        requires
                            r2@ + top * u512_modulus() == rem@ * 2 + bit,
                            rem@ < u512_modulus(),
                            bit <= 1,
                            u512_modulus() >= 1,
                    ;
                }
                let ghost old_rem = rem@;
                let (_, below) = r2.overflowing_sub(d);
                let qbit: u64;
                if top != 0 || !below {
                    let (r3, _) = r2.overflowing_sub(d);
                    proof {
                        if top != 0 {
                            assert(r2@ + u512_modulus() == rem@ * 2 + bit) by (nonlinear_arith)
                                requires
                                    r2@ + top * u512_modulus() == rem@ * 2 + bit,
                                    top == 1,
                            ;
                        } else {
                            assert(r2@ == rem@ * 2 + bit) by (nonlinear_arith)
                                requires
                                    r2@ + top * u512_modulus() == rem@ * 2 + bit,
                                    top == 0,
                            ;
                        }
                        assert(r3@ == rem@ * 2 + bit - d@);
                    }
                    rem = r3;
                    qbit = 1;
                    assert(rem@ == old_rem * 2 + bit - qbit * d@);
                } else {
                    proof {
                        assert(r2@ == rem@ * 2 + bit) by (nonlinear_arith)
                            requires
                                r2@ + top * u512_modulus() == rem@ * 2 + bit,
                                top == 0,
                        ;
                    }
                    rem = r2;
                    qbit = 0;
                    assert(rem@ == old_rem * 2 + bit - qbit * d@);
                }
                let ghost old_q = q@;
                let (q2, qtop) = q.mul_word_add(2, qbit);
                proof {
                    let np = 2 * prefix + bit;
                    assert((old_q * 2 + qbit) * d@ + rem@ == np) by (nonlinear_arith)
                        requires
                            old_q * d@ + old_rem == prefix,
                            rem@ == old_rem * 2 + bit - qbit * d@,
                            np == 2 * prefix + bit,
                    ;
                    assert(old_q * 2 + qbit <= np) by (nonlinear_arith)
                        requires
                            (old_q * 2 + qbit) * d@ + rem@ == np,
                            d@ >= 1,
                            rem@ >= 0,
                            old_q * 2 + qbit >= 0,
                    ;
                    assert(np < pow2(k + 1));
                    q2.lemma_bounded();
                    assert(qtop == 0) by (nonlinear_arith)
                        requires
                            q2@ + qtop * u512_modulus() == old_q * 2 + qbit,
                            old_q * 2 + qbit < u512_modulus(),
                    ;
                    assert(q2@ == old_q * 2 + qbit) by (nonlinear_arith)
                        requires
                            q2@ + qtop * u512_modulus() == old_q * 2 + qbit,
                            qtop == 0,
                    ;
                    assert((64 - (s - 1)) as nat == (64 - s + 1) as nat);
                    assert((64 * i + (64 - (s - 1))) as nat == k + 1);
                }
                q = q2;
                s = s - 1;
            }
            proof {
                lemma_val_take_step(self.limbs@, i as int);
                lemma2_to64();
                assert(x as nat / pow2(0) == x);
                assert(high * pow2(64) + x == limbs_val(self.limbs@.take(i + 1)));
                assert((64 * i + (64 - 0)) as nat == 64 * (i + 1) as nat);
            }
            i = i + 1;
        }
        proof {
            assert(self.limbs@.take(8) =~= self.limbs@);
            lemma_fundamental_div_mod_converse(self@ as int, d@ as int, q@ as int, rem@ as int);
        }
        (q, rem)
    }

    /// The quotient, or `None` when `d` is zero.
    pub fn checked_div(self, d: U512) -> (r: Option<U512>)
        ensures
            r is Some <==> d@ != 0,
            r matches Some(v) ==> v@ == self@ / d@,
    {
        if d.is_zero() {
            None
        } else {
            Some(self.div_mod(d).0)
        }
    }

    /// `self * w + c` modulo 2^512, with the part that spilled over 2^512.
    fn mul_word_add(self, w: u64, c: u64) -> (r: (U512, u64))
        ensures
            r.0@ + r.1 * u512_modulus() == self@ * w + c,
    {
        let mut limbs = [0u64; 8];
        let mut carry: u64 = c;
        let mut i: usize = 8;
        proof {
            assert(limbs@.skip(8) =~= Seq::<u64>::empty());
            assert(self.limbs@.skip(8) =~= Seq::<u64>::empty());
            assert(limbs_val(self.limbs@.skip(8)) == 0);
            assert(limbs_val(self.limbs@.skip(8)) * w == 0);
            assert(limb_pow((8 - i) as nat) == 1);
            assert(carry * limb_pow((8 - i) as nat) == c);
        }
        while i > 0
            invariant
                i <= 8,
                limbs_val(limbs@.skip(i as int)) + carry * limb_pow((8 - i) as nat) == limbs_val(
                    self.limbs@.skip(i as int),
                ) * w + c,
            decreases i,
        {
            let ghost old_limbs = limbs@;
            let ghost old_carry = carry;
            let j = i - 1;
            let x = self.limbs[j];
            proof {
                assert((x as int) * (w as int) + carry <= 0xffff_ffff_ffff_ffff_0000_0000_0000_0000int)
                    by (nonlinear_arith)
                    requires
                        x <= 0xffff_ffff_ffff_ffff,
                        w <= 0xffff_ffff_ffff_ffff,
                        carry <= 0xffff_ffff_ffff_ffff,
                ;
            }
            let t: u128 = x as u128 * w as u128 + carry as u128;
            limbs[j] = (t % 0x1_0000_0000_0000_0000u128) as u64;
            carry = (t / 0x1_0000_0000_0000_0000u128) as u64;
            proof {
                let p = limb_pow((8 - i) as nat);
                lemma_skip_unchanged(old_limbs, limbs@, i as int);
                lemma_val_skip_step(limbs@, i as int);
                lemma_val_skip_step(self.limbs@, i as int);
                assert(limb_pow((8 - j) as nat) == p * limb_base());
                let d = limbs[j as int] as int;
                assert(d + carry * limb_base() == x * w + old_carry);
                let v = limbs_val(self.limbs@.skip(i as int));
                assert(d * p + carry * (p * limb_base()) + v * w + c - old_carry * p == (x * p + v)
                    * w + c) by (nonlinear_arith)
                    requires
                        d + carry * limb_base() == x * w + old_carry,
                ;
            }
            i = j;
        }
        proof {
            assert(limbs@.skip(0) =~= limbs@);
            assert(self.limbs@.skip(0) =~= self.limbs@);
        }
        (U512 { limbs }, carry)
    }
}

impl std::ops::Add for U512 {
    type Output = U512;

    fn add(self, rhs: U512) -> (r: U512)
        ensures
            r@ == self@ + rhs@,
    {
        let r = self.checked_add(rhs).unwrap();
        proof {
            r.lemma_bounded();
            U512::lemma_of_nat(r@);
            U512::of_nat(r@).lemma_view_injective(r);
        }
        r
    }
}

impl vstd::std_specs::ops::AddSpecImpl for U512 {
    open spec fn obeys_add_spec() -> bool {
        true
    }

    open spec fn add_req(self, rhs: U512) -> bool {
        self@ + rhs@ < u512_modulus()
    }

    open spec fn add_spec(self, rhs: U512) -> U512 {
        U512::of_nat(self@ + rhs@)
    }
}

impl std::ops::Sub for U512 {
    type Output = U512;

    fn sub(self, rhs: U512) -> (r: U512)
        ensures
            r@ == self@ - rhs@,
    {
        let r = self.checked_sub(rhs).unwrap();
        proof {
            r.lemma_bounded();
            U512::lemma_of_nat(r@);
            U512::of_nat(r@).lemma_view_injective(r);
        }
        r
    }
}

impl vstd::std_specs::ops::SubSpecImpl for U512 {
    open spec fn obeys_sub_spec() -> bool {
        true
    }

    open spec fn sub_req(self, rhs: U512) -> bool {
        rhs@ <= self@
    }

    open spec fn sub_spec(self, rhs: U512) -> U512 {
        U512::of_nat((self@ - rhs@) as nat)
    }
}

impl std::ops::Mul for U512 {
    type Output = U512;

    fn mul(self, rhs: U512) -> (r: U512)
        ensures
            r@ == self@ * rhs@,
    {
        let r = self.checked_mul(rhs).unwrap();
        proof {
            r.lemma_bounded();
            U512::lemma_of_nat(r@);
            U512::of_nat(r@).lemma_view_injective(r);
        }
        r
    }
}

impl vstd::std_specs::ops::MulSpecImpl for U512 {
    open spec fn obeys_mul_spec() -> bool {
        true
    }

    open spec fn mul_req(self, rhs: U512) -> bool {
        self@ * rhs@ < u512_modulus()
    }

    open spec fn mul_spec(self, rhs: U512) -> U512 {
        U512::of_nat(self@ * rhs@)
    }
}

impl std::ops::Div for U512 {
    type Output = U512;

    fn div(self, rhs: U512) -> (r: U512)
        ensures
            r@ == self@ / rhs@,
    {
        let r = self.checked_div(rhs).unwrap();
        proof {
            r.lemma_bounded();
            U512::lemma_of_nat(r@);
            U512::of_nat(r@).lemma_view_injective(r);
        }
        r
    }
}

impl vstd::std_specs::ops::DivSpecImpl for U512 {
    open spec fn obeys_div_spec() -> bool {
        true
    }

    open spec fn div_req(self, rhs: U512) -> bool {
        rhs@ != 0
    }

    open spec fn div_spec(self, rhs: U512) -> U512 {
        U512::of_nat(self@ / rhs@)
    }
}

impl Default for U512 {
    fn default() -> (r: U512)
        ensures
            r@ == 0,
    {
        U512::zero()
    }
}

impl From<u64> for U512 {
    fn from(v: u64) -> (r: U512) {
        let r = U512 { limbs: [0, 0, 0, 0, 0, 0, 0, v] };
        r
    }
}

impl vstd::std_specs::convert::FromSpecImpl<u64> for U512 {
    open spec fn obeys_from_spec() -> bool {
        true
    }

    open spec fn from_spec(v: u64) -> U512 {
        U512::of_u64(v)
    }
}

impl U512 {
    /// The representation of `n`, for `n` below 2^512.
    pub closed spec fn of_nat(n: nat) -> U512 {
        let s = limbs_of(n, 8);
        U512 { limbs: [s[0], s[1], s[2], s[3], s[4], s[5], s[6], s[7]] }
    }

    /// The representation of `n` denotes `n`.
    pub proof fn lemma_of_nat(n: nat)
        requires
            n < u512_modulus(),
        ensures
            U512::of_nat(n)@ == n,
    {
        let s = limbs_of(n, 8);
        lemma_limbs_of(n, 8);
        assert(U512::of_nat(n).limbs@ =~= s);
        lemma_small_mod(n, u512_modulus());
    }

    /// The representation of a 64-bit integer.
    pub closed spec fn of_u64(v: u64) -> U512 {
        U512 { limbs: [0, 0, 0, 0, 0, 0, 0, v] }
    }

    /// The representation of a 64-bit integer denotes that integer.
    pub proof fn lemma_of_u64(v: u64)
        ensures
            U512::of_u64(v)@ == v,
    {
        let r = U512 { limbs: [0, 0, 0, 0, 0, 0, 0, v] };
        lemma_val_zeros(r.limbs@.drop_last());
    }
}

} // verus!
