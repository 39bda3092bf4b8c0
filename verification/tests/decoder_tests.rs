use swap_watcher::decoder::{get_output_fields, DecodeError, LogParam, Output, ParamValue};
use swap_watcher::u256::{twos_complement, u256_gt, U256, U257};

fn addr(n: u8) -> Vec<u8> {
    let mut v = vec![0u8; 20];
    v[19] = n;
    v
}

fn swap_params(amount0: U256, amount1: U256) -> Vec<LogParam> {
    vec![
        LogParam { name: String::from("sender"), value: ParamValue::Address(addr(0xAA)) },
        LogParam { name: String::from("recipient"), value: ParamValue::Address(addr(0xBB)) },
        LogParam { name: String::from("amount0"), value: ParamValue::Uint(amount0) },
        LogParam { name: String::from("amount1"), value: ParamValue::Uint(amount1) },
        LogParam { name: String::from("tick"), value: ParamValue::Other },
    ]
}

#[test]
fn twos_complement_of_small_value() {
    // 2^256 - 50 has every high limb saturated and the low limb MAX - 49.
    let c = twos_complement(&U256::from_u128(50));
    assert!(!c.carry);
    assert_eq!(c.word, U256::new(u64::MAX - 49, u64::MAX, u64::MAX, u64::MAX));
    // Applying the correction again recovers the magnitude 50.
    assert_eq!(twos_complement(&c.word), U257::from_word(U256::from_u128(50)));
}

#[test]
fn twos_complement_of_zero_is_two_pow_256() {
    // 2^256 - 0 overflows the bare word and lands in the carry limb.
    let c = twos_complement(&U256::zero());
    assert!(c.carry);
    assert_eq!(c.word, U256::zero());
}

#[test]
fn twos_complement_carries_across_limbs() {
    // 2^256 - 2^64 = (0, MAX, MAX, MAX) in the bare word.
    let v = U256::new(0, 1, 0, 0);
    assert_eq!(twos_complement(&v), U257::from_word(U256::new(0, u64::MAX, u64::MAX, u64::MAX)));
}

#[test]
fn u256_from_u128_splits_limbs() {
    assert_eq!(U256::from_u128(7), U256::new(7, 0, 0, 0));
    assert_eq!(U256::from_u128(u64::MAX as u128 + 5), U256::new(4, 1, 0, 0));
}

#[test]
fn u256_comparison_orders_by_value() {
    assert!(u256_gt(&U256::new(0, 0, 0, 1), &U256::new(u64::MAX, u64::MAX, u64::MAX, 0)));
    assert!(u256_gt(&U256::from_u128(100), &U256::from_u128(50)));
    assert!(!u256_gt(&U256::from_u128(50), &U256::from_u128(50)));
}

#[test]
fn decoder_reports_larger_raw_word_as_negative_leg() {
    // amount0 = 100 raw, amount1 = 2^256 - 50, i.e. -50: the amount1 leg is
    // the outflow and the direction reads the negative token as destination.
    let out = get_output_fields(&swap_params(
        U256::from_u128(100),
        twos_complement(&U256::from_u128(50)).word,
    ))
    .unwrap();

    assert_eq!(out.sender, addr(0xAA));
    assert_eq!(out.recipient, addr(0xBB));
    assert!(!out.dai.negative);
    assert_eq!(out.dai.magnitude, U257::from_word(U256::from_u128(100)));
    assert!(out.usdc.negative);
    assert_eq!(out.usdc.magnitude, U257::from_word(U256::from_u128(50)));
    assert_eq!(out.direction, "DAI -> USDC");
}

#[test]
fn decoder_direction_flips_with_the_larger_field() {
    // Swapping which raw field holds the larger value flips the label.
    let out = get_output_fields(&swap_params(
        twos_complement(&U256::from_u128(50)).word,
        U256::from_u128(100),
    ))
    .unwrap();

    assert!(out.dai.negative);
    assert_eq!(out.dai.magnitude, U257::from_word(U256::from_u128(50)));
    assert!(!out.usdc.negative);
    assert_eq!(out.usdc.magnitude, U257::from_word(U256::from_u128(100)));
    assert_eq!(out.direction, "USDC -> DAI");
}

#[test]
fn decoder_treats_equal_amounts_as_amount1_negative() {
    // Equal raw values take the same branch as amount1 being larger.
    let out =
        get_output_fields(&swap_params(U256::from_u128(7), U256::from_u128(7))).unwrap();
    assert!(!out.dai.negative);
    assert!(out.usdc.negative);
    assert_eq!(out.direction, "DAI -> USDC");
}

#[test]
fn decoder_recovers_two_pow_256_when_both_amounts_are_zero() {
    // Two zero raw words take the else branch: the amount1 leg is judged
    // negative and its recovered magnitude is 2^256 - 0 = 2^256.
    let out = get_output_fields(&swap_params(U256::zero(), U256::zero())).unwrap();
    assert!(!out.dai.negative);
    assert_eq!(out.dai.magnitude, U257::from_word(U256::zero()));
    assert!(out.usdc.negative);
    assert!(out.usdc.magnitude.carry);
    assert_eq!(out.usdc.magnitude.word, U256::zero());
    assert_eq!(out.direction, "DAI -> USDC");
}

#[test]
fn decoder_fails_on_missing_parameters() {
    let mut params = swap_params(U256::from_u128(1), U256::from_u128(2));
    params.retain(|p| p.name != "sender");
    assert_eq!(get_output_fields(&params), Err(DecodeError::Sender));

    let mut params = swap_params(U256::from_u128(1), U256::from_u128(2));
    params.retain(|p| p.name != "recipient");
    assert_eq!(get_output_fields(&params), Err(DecodeError::Recipient));

    let mut params = swap_params(U256::from_u128(1), U256::from_u128(2));
    params.retain(|p| p.name != "amount0");
    assert_eq!(get_output_fields(&params), Err(DecodeError::Amount0));

    let mut params = swap_params(U256::from_u128(1), U256::from_u128(2));
    params.retain(|p| p.name != "amount1");
    assert_eq!(get_output_fields(&params), Err(DecodeError::Amount1));
}

#[test]
fn decoder_fails_on_mistyped_parameters() {
    let mut params = swap_params(U256::from_u128(1), U256::from_u128(2));
    params[0].value = ParamValue::Uint(U256::zero());
    assert_eq!(get_output_fields(&params), Err(DecodeError::Sender));

    let mut params = swap_params(U256::from_u128(1), U256::from_u128(2));
    params[2].value = ParamValue::Address(addr(1));
    assert_eq!(get_output_fields(&params), Err(DecodeError::Amount0));
}

#[test]
fn decoder_lets_a_later_occurrence_overwrite() {
    let mut params = swap_params(U256::from_u128(1), U256::from_u128(2));
    params.push(LogParam {
        name: String::from("amount0"),
        value: ParamValue::Uint(U256::from_u128(300)),
    });
    // amount0 is now 300 and larger than amount1, so it is judged negative
    // and recovered as 2^256 - 300.
    let out = get_output_fields(&params).unwrap();
    assert!(out.dai.negative);
    assert_eq!(out.dai.magnitude, twos_complement(&U256::from_u128(300)));
    assert!(!out.usdc.negative);
    assert_eq!(out.usdc.magnitude, U257::from_word(U256::from_u128(2)));
    assert_eq!(out.direction, "USDC -> DAI");
}

#[test]
fn new_output_is_empty() {
    let out = Output::new();
    assert!(out.sender.is_empty());
    assert!(out.recipient.is_empty());
    assert!(!out.dai.negative);
    assert_eq!(out.dai.magnitude, U257::from_word(U256::zero()));
    assert!(!out.usdc.negative);
    assert_eq!(out.usdc.magnitude, U257::from_word(U256::zero()));
    assert_eq!(out.direction, "");
}
