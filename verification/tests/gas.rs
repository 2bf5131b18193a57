use engine_core::gas::Gas;
use engine_core::motes::Motes;
use engine_core::u512::U512;

#[test]
fn should_be_able_to_get_instance_of_gas() {
    let initial_value = 1;
    let gas = Gas::new(U512::from(initial_value));
    assert_eq!(
        initial_value,
        gas.value().as_u64(),
        "should have equal value"
    )
}

#[test]
fn should_be_able_to_get_instance_from_u64() {
    let initial_value = 1;
    let gas = Gas::from_u64(initial_value);
    assert_eq!(
        initial_value,
        gas.value().as_u64(),
        "should have equal value"
    )
}

#[test]
fn should_be_able_to_compare_two_instances_of_gas() {
    let left_gas = Gas::new(U512::from(1));
    let right_gas = Gas::new(U512::from(1));
    assert_eq!(left_gas, right_gas, "should be equal");
    let right_gas = Gas::new(U512::from(2));
    assert_ne!(left_gas, right_gas, "should not be equal")
}

#[test]
fn should_be_able_to_add_two_instances_of_gas() {
    let left_gas = Gas::new(U512::from(1));
    let right_gas = Gas::new(U512::from(1));
    let expected_gas = Gas::new(U512::from(2));
    assert_eq!((left_gas + right_gas), expected_gas, "should be equal")
}

#[test]
fn should_be_able_to_subtract_two_instances_of_gas() {
    let left_gas = Gas::new(U512::from(1));
    let right_gas = Gas::new(U512::from(1));
    let expected_gas = Gas::new(U512::from(0));
    assert_eq!((left_gas - right_gas), expected_gas, "should be equal")
}

#[test]
fn should_be_able_to_multiply_two_instances_of_gas() {
    let left_gas = Gas::new(U512::from(100));
    let right_gas = Gas::new(U512::from(10));
    let expected_gas = Gas::new(U512::from(1000));
    assert_eq!((left_gas * right_gas), expected_gas, "should be equal")
}

#[test]
fn should_be_able_to_divide_two_instances_of_gas() {
    let left_gas = Gas::new(U512::from(1000));
    let right_gas = Gas::new(U512::from(100));
    let expected_gas = Gas::new(U512::from(10));
    assert_eq!((left_gas / right_gas), expected_gas, "should be equal")
}

#[test]
fn should_be_able_to_convert_from_mote() {
    let mote = Motes::new(U512::from(100));
    let gas = Gas::from_motes(mote, 10).expect("should have gas");
    let expected_gas = Gas::new(U512::from(10));
    assert_eq!(gas, expected_gas, "should be equal")
}

#[test]
fn should_be_able_to_default() {
    let gas = Gas::default();
    let expected_gas = Gas::new(U512::from(0));
    assert_eq!(gas, expected_gas, "should be equal")
}

#[test]
fn should_be_able_to_compare_relative_value() {
    let left_gas = Gas::new(U512::from(100));
    let right_gas = Gas::new(U512::from(10));
    assert!(left_gas > right_gas, "should be gt");
    let right_gas = Gas::new(U512::from(100));
    assert!(left_gas >= right_gas, "should be gte");
    assert!(left_gas <= right_gas, "should be lte");
    let left_gas = Gas::new(U512::from(10));
    assert!(left_gas < right_gas, "should be lt");
}

#[test]
fn should_default() {
    let left_gas = Gas::new(U512::from(0));
    let right_gas = Gas::default();
    assert_eq!(left_gas, right_gas, "should be equal");
    let u512 = U512::zero();
    assert_eq!(left_gas.value(), u512, "should be equal");
}

#[test]
fn should_support_checked_div_from_motes() {
    let motes = Motes::new(U512::zero());
    let conv_rate = 0;
    let maybe = Gas::from_motes(motes, conv_rate);
    assert!(maybe.is_none(), "should be none due to divide by zero");
}

#[test]
fn gas_from_motes_rounds_down() {
    let gas = Gas::from_motes(Motes::new(U512::from(109)), 10).unwrap();
    assert_eq!(gas, Gas::from_u64(10));
    let back = Motes::from_gas(gas, 10).unwrap();
    assert_eq!(back.value(), U512::from(100));
    assert!(back <= Motes::new(U512::from(109)));
}

#[test]
fn gas_checked_add_overflows_at_the_top() {
    let (max, _) = U512::zero().overflowing_sub(U512::from(1));
    let top = Gas::new(max);
    assert!(top.checked_add(Gas::from_u64(1)).is_none());
    assert_eq!(top.checked_add(Gas::default()), Some(top));
    assert_eq!(Gas::from_u64(2).checked_add(Gas::from_u64(3)), Some(Gas::from_u64(5)));
}

#[test]
fn gas_add_then_sub_gives_back_the_amount() {
    let a = Gas::from_u64(1234);
    let b = Gas::from_u64(99);
    assert_eq!((a + b) - b, a);
    assert_eq!(a + b, b + a);
    assert_eq!((a * b) / b, a);
}

#[test]
fn gas_is_written_in_decimal() {
    assert_eq!(Gas::from_u64(1000).to_string(), "1000");
    assert_eq!(Gas::default().to_string(), "0");
}

#[test]
fn motes_from_gas_overflow_is_none() {
    let (max, _) = U512::zero().overflowing_sub(U512::from(1));
    assert!(Motes::from_gas(Gas::new(max), 2).is_none());
    assert_eq!(Motes::from_gas(Gas::new(max), 1).unwrap().value(), max);
    assert_eq!(Motes::from_u64(5).value().as_u64(), 5);
}
