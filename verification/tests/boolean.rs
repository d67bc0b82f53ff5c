use config_crap::boolean::{Boolean, BooleanError};

#[test]
fn test_deserialize_bool_json_string() {
    assert_eq!(Boolean::from_bool(true), Boolean::True);
    assert_eq!(Boolean::from_bool(false), Boolean::False);
}

#[test]
fn test_deserialize_integer() {
    assert_eq!(Boolean::from_u64(1).unwrap(), Boolean::True);
    assert_eq!(Boolean::from_u64(0).unwrap(), Boolean::False);

    // Test error cases
    assert!(Boolean::from_u64(2).is_err());
    assert!(Boolean::from_i64(-1).is_err());
}

#[test]
fn test_deserialize_string() {
    // True values
    assert_eq!(Boolean::from_text("true").unwrap(), Boolean::True);
    assert_eq!(Boolean::from_text("TRUE").unwrap(), Boolean::True);
    assert_eq!(Boolean::from_text("yes").unwrap(), Boolean::True);
    assert_eq!(Boolean::from_text("YES").unwrap(), Boolean::True);
    assert_eq!(Boolean::from_text("t").unwrap(), Boolean::True);
    assert_eq!(Boolean::from_text("T").unwrap(), Boolean::True);
    assert_eq!(Boolean::from_text("y").unwrap(), Boolean::True);
    assert_eq!(Boolean::from_text("Y").unwrap(), Boolean::True);
    assert_eq!(Boolean::from_text("positive").unwrap(), Boolean::True);
    assert_eq!(Boolean::from_text("POSITIVE").unwrap(), Boolean::True);
    assert_eq!(Boolean::from_text("ack").unwrap(), Boolean::True);
    assert_eq!(Boolean::from_text("ACK").unwrap(), Boolean::True);

    // False values
    assert_eq!(Boolean::from_text("false").unwrap(), Boolean::False);
    assert_eq!(Boolean::from_text("faLSe").unwrap(), Boolean::False);
    assert_eq!(Boolean::from_text("no").unwrap(), Boolean::False);
    assert_eq!(Boolean::from_text("NO").unwrap(), Boolean::False);
    assert_eq!(Boolean::from_text("f").unwrap(), Boolean::False);
    assert_eq!(Boolean::from_text("F").unwrap(), Boolean::False);
    assert_eq!(Boolean::from_text("n").unwrap(), Boolean::False);
    assert_eq!(Boolean::from_text("N").unwrap(), Boolean::False);
    assert_eq!(Boolean::from_text("negative").unwrap(), Boolean::False);
    assert_eq!(Boolean::from_text("NEGATIVE").unwrap(), Boolean::False);
    assert_eq!(Boolean::from_text("nack").unwrap(), Boolean::False);
    assert_eq!(Boolean::from_text("NACK").unwrap(), Boolean::False);

    // Error cases
    assert!(Boolean::from_text("invalid").is_err());
    assert!(Boolean::from_text("maybe").is_err());
}

#[test]
fn text_is_trimmed_after_lowering() {
    assert_eq!(Boolean::from_text("  Yes\t"), Ok(Boolean::True));
    assert_eq!(Boolean::from_text("\nnack "), Ok(Boolean::False));
    assert_eq!(Boolean::from_text(" tru e "), Err(BooleanError::InvalidText(" tru e ".to_string())));
}

#[test]
fn words_are_matched_exactly() {
    assert_eq!(Boolean::from_word("yes"), Some(Boolean::True));
    assert_eq!(Boolean::from_word("nack"), Some(Boolean::False));
    assert_eq!(Boolean::from_word("YES"), None);
    assert_eq!(Boolean::from_word(" yes"), None);
}

#[test]
fn integers_other_than_zero_and_one_are_refused() {
    assert_eq!(Boolean::from_i64(1), Ok(Boolean::True));
    assert_eq!(Boolean::from_i64(0), Ok(Boolean::False));
    assert_eq!(Boolean::from_i128(7), Err(BooleanError::InvalidInteger));
    assert_eq!(Boolean::from_u128(1), Ok(Boolean::True));
    assert_eq!(Boolean::from_u128(u128::MAX), Err(BooleanError::InvalidInteger));
    assert_eq!(Boolean::from_i128(-1), Err(BooleanError::InvalidInteger));
}

#[test]
fn conversions_and_operators() {
    assert!(Boolean::True.as_bool());
    assert!(!Boolean::False.to_bool());
    assert_eq!(Boolean::default(), Boolean::False);
    assert_eq!(Boolean::from(true), Boolean::True);
    assert!(bool::from(Boolean::True));
    assert!(Boolean::True & Boolean::True);
    assert!(!(Boolean::True & Boolean::False));
    assert!(Boolean::True ^ Boolean::False);
    assert!(!(Boolean::True ^ Boolean::True));
    assert!(Boolean::False | Boolean::True);
    assert!(!(Boolean::False | Boolean::False));
    assert!(!Boolean::True == false);
    assert!(Boolean::True.and(Boolean::True));
    assert!(Boolean::False.negate());
}

#[test]
fn references_to_truth_values() {
    assert_eq!(*Boolean::True.as_ref(), true);
    assert_eq!(*Boolean::False.as_ref(), false);
}

#[test]
fn upper_case_words_are_read() {
    assert_eq!(Boolean::from_text("TRUE"), Ok(Boolean::True));
    assert_eq!(Boolean::from_text("  No \t"), Ok(Boolean::False));
}
