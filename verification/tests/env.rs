use config_crap::env::{template_string, Environment, WithEnv};

fn env() -> Environment {
    Environment::from_pairs(vec![("foo", "bar")].into_iter().map(|(k, v)| (k.to_string(), v.to_string())).collect())
}

#[test]
fn test_template_string() {
    let env = env();
    assert_eq!(template_string("${foo}", &env), "bar");
    assert_eq!(template_string("${foo}baz", &env), "barbaz");
    assert_eq!(template_string("baz${foo}", &env), "bazbar");

    assert_eq!(template_string(" ${foo} ${foo}  ${foo}  ", &env), " bar bar  bar  ");
}

#[test]
fn missing_variables_become_empty() {
    let env = env();
    assert_eq!(template_string("a${nope}b", &env), "ab");
    assert_eq!(template_string("${nope}${foo}", &env), "bar");
}

#[test]
fn strings_without_references_are_kept() {
    let env = env();
    assert_eq!(template_string("plain text", &env), "plain text");
    assert_eq!(template_string("$foo {foo} ${1abc}", &env), "$foo {foo} ${1abc}");
    assert_eq!(template_string("", &env), "");
}

#[test]
fn a_later_entry_of_a_name_wins() {
    let env = Environment::from_pairs(vec![
        ("x".to_string(), "1".to_string()),
        ("x".to_string(), "2".to_string()),
        ("y_2".to_string(), "é".to_string()),
    ]);
    assert_eq!(env.get("x"), Some(&"2".to_string()));
    assert_eq!(env.get("z"), None);
    assert_eq!(template_string("<${x}|${y_2}>", &env), "<2|é>");
    let copy = env.clone();
    assert_eq!(copy.get("y_2"), Some(&"é".to_string()));
}

#[test]
fn with_env_keeps_value_and_text() {
    let w = WithEnv::new(42u32, "${port}".to_string());
    assert_eq!(*w.get(), 42);
    assert_eq!(w.from_config(), "${port}");
    assert_eq!(w.into_inner(), 42);
}

#[test]
fn references_in_urls_are_replaced() {
    let env = env();
    assert_eq!(template_string("http://${foo}.com", &env), "http://bar.com");
}

#[test]
fn references_are_replaced_and_the_rest_kept_in_order() {
    let env = Environment::from_pairs(vec![("a".to_string(), "1".to_string()), ("b".to_string(), "".to_string())]);
    assert_eq!(template_string("${a}${a}x${b}y${c}${a}", &env), "11xy1");
}
