use payments::amount::{Amount, ParseError};

#[test]
fn parse_integer() {
    assert_eq!(Amount::parse("100"), Ok(Amount(1000000)));
}

#[test]
fn parse_three_fraction_digits() {
    assert_eq!(Amount::parse("1.234"), Ok(Amount(12340)));
}

#[test]
fn parse_smallest_step() {
    assert_eq!(Amount::parse("0.0001"), Ok(Amount(1)));
}

#[test]
fn parse_too_precise() {
    assert_eq!(Amount::parse("0.00001"), Err(ParseError::InvalidPrecision));
}

#[test]
fn parse_one_fraction_digit() {
    assert_eq!(Amount::parse("5.8"), Ok(Amount(58000)));
}

#[test]
fn parse_zero() {
    assert_eq!(Amount::parse("0"), Ok(Amount(0)));
}

#[test]
fn parse_empty_fraction() {
    assert_eq!(Amount::parse("5."), Ok(Amount(50000)));
}

#[test]
fn parse_rejects_empty() {
    assert_eq!(Amount::parse(""), Err(ParseError::InvalidFormat));
}

#[test]
fn parse_rejects_text() {
    assert_eq!(Amount::parse("abc"), Err(ParseError::InvalidFormat));
    assert_eq!(Amount::parse("1x.2"), Err(ParseError::InvalidFormat));
    assert_eq!(Amount::parse("1.2y"), Err(ParseError::InvalidFormat));
}

#[test]
fn parse_rejects_missing_integer_part() {
    assert_eq!(Amount::parse(".5"), Err(ParseError::InvalidFormat));
}

#[test]
fn parse_rejects_second_dot() {
    assert_eq!(Amount::parse("1.2.3"), Err(ParseError::InvalidFormat));
}

#[test]
fn parse_rejects_negative() {
    assert_eq!(Amount::parse("-1"), Err(ParseError::InvalidFormat));
}

#[test]
fn parse_rejects_oversized_value() {
    // 10_000 times this integer no longer fits the 64-bit count.
    assert_eq!(
        Amount::parse("18446744073709551615"),
        Err(ParseError::InvalidFormat)
    );
}

#[test]
fn add_concrete() {
    assert_eq!(Amount::new(3).add(Amount::new(4)), Amount(7));
}

#[test]
fn add_commutes_concrete() {
    let a = Amount::new(1234);
    let b = Amount::new(9876);
    assert_eq!(a.add(b), b.add(a));
}

#[test]
fn add_associates_concrete() {
    let a = Amount::new(17);
    let b = Amount::new(400);
    let c = Amount::new(90000);
    assert_eq!(a.add(b).add(c), a.add(b.add(c)));
}

#[test]
fn sub_exact() {
    assert_eq!(Amount::new(7).sub(Amount::new(5)), Amount(2));
}

#[test]
fn sub_clamps_to_no_op() {
    assert_eq!(Amount::new(5).sub(Amount::new(7)), Amount(5));
}

#[test]
fn zero_is_identity() {
    let a = Amount::new(42);
    assert_eq!(a.add(Amount::zero()), a);
    assert_eq!(a.sub(Amount::zero()), a);
}
