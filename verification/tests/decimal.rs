use hft_data_generator::decimal::Decimal;

#[test]
fn decimals_keep_their_digits() {
    let d = Decimal::new(-12345, 3);
    assert_eq!(d.mantissa(), -12345);
    assert_eq!(d.scale(), 3);
    let d = Decimal::from_i128_with_scale(0xFFFF_FFFF_FFFF_FFFF_FFFF_FFFF, 28);
    assert_eq!(d.mantissa(), 0xFFFF_FFFF_FFFF_FFFF_FFFF_FFFF);
    assert_eq!(d.scale(), 28);
    assert_eq!(Decimal::zero().mantissa(), 0);
}

#[test]
fn decimals_are_ordered_by_value() {
    assert_eq!(Decimal::new(10, 1), Decimal::new(100, 2));
    assert_ne!(Decimal::new(10, 1), Decimal::new(10, 2));
    assert!(Decimal::new(99, 2) < Decimal::new(1, 0));
    assert!(Decimal::new(-1, 0) < Decimal::new(-99, 2));
    assert!(Decimal::new(2, 0) > Decimal::new(1_999_999, 6));
    assert_eq!(Decimal::new(0, 5), Decimal::zero());
}
