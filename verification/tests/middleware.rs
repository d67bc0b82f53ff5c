use config_crap::middleware::{first_success, Json, WithFile};

#[test]
fn first_format_that_reads_wins() {
    assert_eq!(first_success::<u8, &str>(vec![Err("a"), Ok(2), Ok(3)]), Ok(2));
    assert_eq!(first_success::<u8, &str>(vec![Ok(1), Err("b")]), Ok(1));
    assert_eq!(first_success::<u8, &str>(vec![Err("a"), Err("b")]), Err(vec!["a", "b"]));
    assert_eq!(first_success::<u8, &str>(vec![]), Err(vec![]));
}

#[test]
fn with_file_holds_its_value() {
    let w: WithFile<Json, String> = WithFile::new("data".to_string());
    assert_eq!(w.get(), "data");
    let c = w.clone();
    assert_eq!(c.into_inner(), "data");
}
