use erc20_balances::algorithms::scaled::compute_balance;
use erc20_balances::bignum::BigNum;
use std::str::FromStr;
use substreams::scalar::BigInt;

fn big(text: &str) -> BigNum {
    BigNum { bytes: BigInt::from_str(text).unwrap().to_signed_bytes_be() }
}

fn text(v: &BigNum) -> String {
    BigInt::from_signed_bytes_be(&v.bytes).to_string()
}

fn ray() -> BigNum {
    BigNum { bytes: BigInt::from(10).pow(27).to_signed_bytes_be() }
}

#[test]
fn test_zero_balance() {
    let scaled_balance = BigNum::zero();
    let liquidity_index = ray(); // e.g., 1.0 in RAY
    let expected = BigNum::zero();

    let actual = compute_balance(scaled_balance, liquidity_index);
    assert_eq!(text(&actual), text(&expected), "Balance should be zero when scaled balance is zero");
}

#[test]
fn test_base_liquidity_index() {
    let scaled_balance = big("100");
    let liquidity_index = ray(); // exactly 1.0 in RAY
    let expected = big("100");

    let actual = compute_balance(scaled_balance, liquidity_index);
    assert_eq!(text(&actual), text(&expected), "Should remain 100 if index = 1.0");
}

#[test]
fn test_simple_interest_case() {
    let scaled_balance = big("100");
    let liquidity_index = big("1050000000000000000000000000");
    // expected = 100 * 1.05 = 105
    let expected = big("105");

    let actual = compute_balance(scaled_balance, liquidity_index);
    assert_eq!(text(&actual), text(&expected), "Should compute 105 as the updated balance");
}

#[test]
fn test_user1() {
    let scaled_balance = big("26952969495731");
    let liquidity_index = big("1114664562587843135811849046");
    let expected = big("30043519953402");

    let actual = compute_balance(scaled_balance, liquidity_index);
    assert_eq!(text(&actual), text(&expected));
}

#[test]
fn test_large_values() {
    let scaled_balance = BigInt::from_str("123456789000000000000000000").unwrap();
    let liquidity_index = BigInt::from_str("1000000123456789012345678900").unwrap();
    let expected1 = BigInt::from_str("123456804241578751714678875019052100000000000000000000").unwrap();
    assert_eq!(&scaled_balance * &liquidity_index, expected1, "Should match multiply result");

    let actual = compute_balance(
        BigNum { bytes: scaled_balance.to_signed_bytes_be() },
        BigNum { bytes: liquidity_index.to_signed_bytes_be() },
    );
    let expected2 = big("123456804241578751714678875");
    assert_eq!(text(&actual), text(&expected2), "Should match the manually computed big integer result");
}

#[test]
fn compute_balance_rounds_toward_zero() {
    // -3 * 1.5 = -4.5, rounded toward zero
    let actual = compute_balance(big("-3"), big("1500000000000000000000000000"));
    assert_eq!(text(&actual), "-4");
    let actual = compute_balance(big("3"), big("1500000000000000000000000000"));
    assert_eq!(text(&actual), "4");
}
