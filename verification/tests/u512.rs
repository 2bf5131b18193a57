use engine_core::u512::U512;

fn max_value() -> U512 {
    let (v, borrowed) = U512::zero().overflowing_sub(U512::from(1));
    assert!(borrowed);
    v
}

#[test]
fn u512_max_is_written_in_full() {
    assert_eq!(
        max_value().to_dec_string(),
        "13407807929942597099574024998205846127479365820592393377723561443721764030073546976801874298166903427690031858186486050853753882811946569946433649006084095"
    );
}

#[test]
fn u512_zero_and_small_values_in_decimal() {
    assert_eq!(U512::zero().to_dec_string(), "0");
    assert_eq!(U512::from(7).to_dec_string(), "7");
    assert_eq!(U512::from(1000).to_dec_string(), "1000");
    assert_eq!(U512::from(u64::MAX).to_dec_string(), "18446744073709551615");
}

#[test]
fn u512_checked_add_overflows_at_the_top() {
    assert!(max_value().checked_add(U512::from(1)).is_none());
    assert_eq!(max_value().checked_add(U512::zero()), Some(max_value()));
    let (wrapped, over) = max_value().overflowing_add(U512::from(2));
    assert!(over);
    assert_eq!(wrapped, U512::from(1));
}

#[test]
fn u512_carries_across_limbs() {
    let a = U512::from(u64::MAX);
    let b = a.checked_add(U512::from(1)).unwrap();
    assert_eq!(b.to_dec_string(), "18446744073709551616");
    assert_eq!(b.checked_sub(U512::from(1)), Some(a));
    assert!(a.checked_sub(b).is_none());
}

#[test]
fn u512_checked_mul_and_div() {
    let a = U512::from(u64::MAX);
    let sq = a.checked_mul(a).unwrap();
    assert_eq!(sq.to_dec_string(), "340282366920938463426481119284349108225");
    assert_eq!(sq.checked_div(a), Some(a));
    let two_128 = U512::from(1u64 << 32).checked_mul(U512::from(1u64 << 32)).unwrap();
    let two_128 = two_128.checked_mul(two_128).unwrap();
    let two_256 = two_128.checked_mul(two_128).unwrap();
    assert_eq!(
        two_256.to_dec_string(),
        "115792089237316195423570985008687907853269984665640564039457584007913129639936"
    );
    assert!(two_256.checked_mul(two_256).is_none());
    assert!(max_value().checked_mul(U512::from(2)).is_none());
    assert_eq!(max_value().checked_mul(U512::from(1)), Some(max_value()));
    assert!(a.checked_div(U512::zero()).is_none());
}

#[test]
fn u512_div_mod_of_the_largest_value() {
    let (q, r) = max_value().div_mod(U512::from(u64::MAX));
    assert_eq!(
        q.to_dec_string(),
        "726838724295606890588725814084399013568056387823382584169080752246511603091378769339537499843825263836454776755850775885168074347773953"
    );
    assert_eq!(r, U512::zero());
    let (q, r) = U512::from(1000).div_mod(U512::from(7));
    assert_eq!(q, U512::from(142));
    assert_eq!(r, U512::from(6));
}

#[test]
fn u512_order_follows_value() {
    let big = U512::from(u64::MAX).checked_add(U512::from(1)).unwrap();
    assert!(U512::from(u64::MAX) < big);
    assert!(big > U512::from(5));
    assert!(U512::from(3) <= U512::from(3));
    assert!(U512::zero().is_zero());
    assert!(!big.is_zero());
    assert_eq!(U512::default(), U512::zero());
    assert_eq!(big.cmp(&U512::from(5)), std::cmp::Ordering::Greater);
}

#[test]
fn u512_as_u64_reads_small_values() {
    assert_eq!(U512::from(42).as_u64(), 42);
    assert_eq!(U512::from(u64::MAX).as_u64(), u64::MAX);
}

#[test]
fn u512_operators_compute_exact_values() {
    let a = U512::from(1_000_000_007);
    let b = U512::from(998_244_353);
    assert_eq!((a + b).to_dec_string(), "1998244360");
    assert_eq!((a - b).to_dec_string(), "1755654");
    assert_eq!((a * b).to_dec_string(), "998244359987710471");
    assert_eq!((a * b) / b, a);
    assert_eq!(a / b, U512::from(1));
}
