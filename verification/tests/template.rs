use config_crap::template::{is_template_text, Expression, StringOrTemplate, Template, When};

#[test]
fn test_invalid_template() {
    assert!(Template::new("Hello {{ invalid_syntax".to_string()).is_err());
}

#[test]
fn template_keeps_its_text() {
    let template = Template::new("Hello {{ name }}!".to_string()).unwrap();
    assert_eq!(template.as_str(), "Hello {{ name }}!");
}

#[test]
fn expressions_are_checked() {
    assert!(Expression::new("a + 1 > 2".to_string()).is_ok());
    assert_eq!(Expression::new("x == 1".to_string()).unwrap().as_str(), "x == 1");
    assert!(Expression::new("a +".to_string()).is_err());
}

#[test]
fn plain_strings_stay_strings() {
    let s = StringOrTemplate::new("just text".to_string()).unwrap();
    assert!(s.is_string());
    assert!(!s.is_template());
    assert_eq!(s.as_str(), "just text");
    let half = StringOrTemplate::new("only {{ opening".to_string()).unwrap();
    assert!(half.is_string());
}

#[test]
fn one_pair_of_markup_makes_a_template() {
    let t = StringOrTemplate::new("Hi {{ name }}".to_string()).unwrap();
    assert!(t.is_template());
    assert_eq!(t.as_str(), "Hi {{ name }}");
    let t = StringOrTemplate::new("{% if x %}y{% endif %}".to_string()).unwrap();
    assert!(t.is_template());
    assert!(StringOrTemplate::new("{{ broken".to_string() + " }} {% if %}").is_err());
}

#[test]
fn markup_detection() {
    assert!(is_template_text("{{x}}"));
    assert!(is_template_text("{%x%}"));
    assert!(!is_template_text("{x}"));
    assert!(is_template_text("}}{{"));
    assert!(!is_template_text("{ { } }"));
    assert!(is_template_text("}} {{ }}"));
}

#[test]
fn when_without_condition_always_applies() {
    let w = When { when: None, data: 5 };
    assert_eq!(w.interior_given(false), Some(&5));
    let c = When { when: Some(Expression::new("true".to_string()).unwrap()), data: 6 };
    assert_eq!(c.interior_given(true), Some(&6));
    assert_eq!(c.interior_given(false), None);
}

#[test]
fn definedness_test_expression() {
    assert_eq!(config_crap::template::defined_check_expression("user"), "user is defined");
    assert!(Expression::new(config_crap::template::defined_check_expression("user")).is_ok());
}
