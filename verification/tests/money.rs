use eshop::money::{round_to_cents, Amount};

fn a(mantissa: i128, scale: u32) -> Amount {
    Amount { mantissa, scale }
}

#[test]
fn rounding_to_cents_is_half_to_even() {
    assert_eq!(round_to_cents(a(2345, 3)), a(234, 2));
    assert_eq!(round_to_cents(a(2355, 3)), a(236, 2));
    assert_eq!(round_to_cents(a(2346, 3)), a(235, 2));
    assert_eq!(round_to_cents(a(-1005, 3)), a(-100, 2));
    assert_eq!(round_to_cents(a(-1015, 3)), a(-102, 2));
}

#[test]
fn rounding_keeps_short_amounts() {
    assert_eq!(round_to_cents(a(15, 1)), a(15, 1));
    assert_eq!(round_to_cents(a(7, 0)), a(7, 0));
    assert_eq!(round_to_cents(a(1999, 2)), a(1999, 2));
}

#[test]
fn rounding_zero_takes_two_places() {
    assert_eq!(round_to_cents(a(0, 5)), a(0, 2));
}

#[test]
fn from_i32_and_zero() {
    assert_eq!(Amount::from_i32(-3), a(-3, 0));
    assert_eq!(Amount::zero(), a(0, 0));
}
