use config_crap::range_ints::{parse_number, RangeError, U16Range, U64Range, U8Range};

#[test]
fn check_range_is_valid() {
    let x = U8Range::<1u8, 100u8>::from_abstract(15).unwrap();
    assert_eq!(x.get(), 15u8);
}

#[test]
#[should_panic]
fn check_range_is_invalid() {
    U8Range::<1u8, 100u8>::from_abstract(101).unwrap();
}

#[test]
fn range_edges() {
    assert_eq!(U8Range::<1u8, 100u8>::from_abstract(1).unwrap().get(), 1);
    assert_eq!(U8Range::<1u8, 100u8>::from_abstract(100).unwrap().get(), 100);
    assert_eq!(U8Range::<1u8, 100u8>::from_abstract(0), Err(RangeError::OutOfBounds));
    assert_eq!(U8Range::<1u8, 100u8>::from_abstract(300), Err(RangeError::NotRepresentable));
    assert_eq!(U8Range::<1u8, 100u8>::from_abstract(-1), Err(RangeError::NotRepresentable));
    assert_eq!(U16Range::<10u16, 20u16>::try_from(30).err(), Some((10, 20)));
}

#[test]
fn defaults_guard_user_input() {
    let d = U64Range::<5u64, 10u64>::try_from(7).unwrap();
    assert_eq!(d.check_or_set_default(None), 7);
    assert_eq!(d.check_or_set_default(Some(9)), 9);
    assert_eq!(d.check_or_set_default(Some(11)), 7);
    assert_eq!(d.check_or_set_default(Some(-3)), 7);
}

#[test]
fn numbers_from_text() {
    assert_eq!(parse_number(" 42 "), Some(42));
    assert_eq!(parse_number("Ox1f"), Some(31));
    assert_eq!(parse_number("Ob101"), Some(5));
    assert_eq!(parse_number("Oo17"), Some(15));
    assert_eq!(parse_number("-8"), Some(-8));
    assert_eq!(parse_number("abc"), None);
    assert_eq!(U8Range::<1u8, 100u8>::from_text("Ox10").unwrap().get(), 16);
    assert_eq!(U8Range::<1u8, 100u8>::from_text("zz"), Err(RangeError::Parse));
}
