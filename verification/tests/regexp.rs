use config_crap::regexp::RegexSource;
use config_crap::boolean::Boolean;
use config_crap::regexp::{RegexConfig, Regexp, RegexpCaptureGroups, LineTerminator};
use config_crap::compiled::{BuilderSettings, CompiledRegex};

#[test]
fn test_regexp_capture_groups_named() {
    let r = Regexp::new(r#"(?<year>[0-9]{4})-(?<month>[0-9]{2})-(?<day>[0-9])"#).unwrap();
    let caps = r.capture_group_info();

    assert!(caps.has_capture_groups());
    assert!(caps.has_group(0));

    assert!(caps.has_name("year"));
    assert_eq!(caps.name_to_group_number("year").unwrap(), 1usize);
    assert!(caps.has_group(1));

    assert!(caps.has_name("month"));
    assert_eq!(caps.name_to_group_number("month").unwrap(), 2usize);
    assert!(caps.has_group(2));

    assert!(caps.has_name("day"));
    assert_eq!(caps.name_to_group_number("day").unwrap(), 3usize);
    assert!(caps.has_group(3));
}

#[test]
fn groups_without_names_and_missing_groups() {
    let r = Regexp::new(r"(a)(?<b>b)(c)").unwrap();
    let caps = r.capture_group_info();
    assert!(caps.has_group(3));
    assert!(!caps.has_group(4));
    assert!(!caps.has_name("a"));
    assert_eq!(caps.name_to_group_number("b"), Some(2));
    assert_eq!(caps.name_to_group_number("c"), None);
    let plain = Regexp::new("abc").unwrap();
    assert!(!plain.capture_group_info().has_capture_groups());
    assert!(plain.capture_group_info().has_group(0));
    assert!(!plain.capture_group_info().has_group(1));
}

#[test]
fn capture_groups_from_names_drop_group_zero() {
    let g = RegexpCaptureGroups::from_names(vec![None, Some("x".to_string()), None]);
    assert_eq!(g.groups, vec![Some("x".to_string()), None]);
}

#[test]
fn invalid_pattern_is_refused() {
    assert!(Regexp::new("[invalid regex").is_err());
}

#[test]
fn patterns_are_kept_and_compared() {
    let a = Regexp::new(r"hello\s+world").unwrap();
    let b = Regexp::new(r"hello\s+world").unwrap();
    let c = Regexp::new(r"hello").unwrap();
    assert_eq!(a.as_str(), r"hello\s+world");
    assert!(a == b);
    assert!(a != c);
    assert!(a.should_serialize_opts().is_none());
    assert!(a.is_match("hello   world"));
    assert!(!a.is_match("helloworld"));
}

#[test]
fn default_config_needs_no_serialization() {
    assert!(!RegexConfig::default().requires_serialization());
    let mut c = RegexConfig::default();
    c.regexp = "x".to_string();
    assert!(c.requires_serialization());
    let mut c = RegexConfig::default();
    c.unicode = Some(Boolean::False);
    assert!(c.requires_serialization());
}

#[test]
fn config_with_options_builds_and_is_kept() {
    let config = RegexConfig {
        regexp: r"test\d+".to_string(),
        case_insensitive: Some(Boolean::from(true)),
        multi_line: Some(Boolean::from(true)),
        unicode: Some(Boolean::from(false)),
        ..Default::default()
    };
    let regexp = Regexp::with_config(config).expect("Valid regex config");
    assert_eq!(regexp.as_str(), r"test\d+");
    assert!(regexp.should_serialize_opts().is_some());
    assert!(regexp.is_match("TEST12"));
}

#[test]
fn line_terminator_config_builds() {
    let config = RegexConfig {
        regexp: "test".to_string(),
        line_terminator: Some(LineTerminator::Crlf),
        ..Default::default()
    };
    let regexp = Regexp::with_config(config).expect("Valid config");
    assert_eq!(regexp.as_str(), "test");
}

#[test]
fn splitting_and_capturing() {
    let r = Regexp::new(r"\$\{([a-z]+)\}").unwrap();
    assert_eq!(r.split_pieces("a${x}b"), vec!["a".to_string(), "b".to_string()]);
    let caps = r.captures("a${x}b${yy}");
    assert_eq!(caps.len(), 2);
    assert_eq!((caps[0].start, caps[0].end), (1, 5));
    assert_eq!(caps[0].groups, vec![Some("${x}".to_string()), Some("x".to_string())]);
    assert_eq!(caps[1].groups[1], Some("yy".to_string()));
}

#[test]
fn pattern_and_config_sources() {
    let regexp1 = Regexp::from_source(RegexSource::Default("simple_pattern".to_string())).unwrap();
    let config = RegexConfig {
        regexp: regexp1.as_str().to_string(),
        case_insensitive: Some(Boolean::from(true)),
        ..Default::default()
    };
    let regexp2 = Regexp::from_source(RegexSource::Complex(config)).unwrap();
    assert_eq!(regexp1.as_str(), regexp2.as_str());
    assert!(regexp1.should_serialize_opts().is_none());
    assert!(regexp2.should_serialize_opts().is_some());
    let regexp3 = regexp2.clone();
    assert_eq!(regexp2.as_str(), regexp3.as_str());
    assert!(regexp3.should_serialize_opts().is_some());
}

#[test]
fn matching_filter() {
    assert_eq!(config_crap::regexp::regex_match("abc123", r"\d+").unwrap(), true);
    assert_eq!(config_crap::regexp::regex_match("abc", r"\d+").unwrap(), false);
    assert!(config_crap::regexp::regex_match("abc", r"(").is_err());
}

#[test]
fn expressions_are_ordered_by_pattern() {
    let a = Regexp::new("a+").unwrap();
    let b = Regexp::new("b").unwrap();
    assert!(a < b);
    assert!(b > a);
    assert_eq!(a.partial_cmp(&Regexp::new("a+").unwrap()), Some(std::cmp::Ordering::Equal));
}

#[test]
fn config_with_invalid_pattern_is_refused() {
    let config = RegexConfig {
        regexp: "(".to_string(),
        case_insensitive: Some(Boolean::from(true)),
        ..Default::default()
    };
    assert!(config.build_regex().is_err());
    assert!(Regexp::with_config(config).is_err());
}

#[test]
fn config_options_reach_the_expression() {
    let config = RegexConfig {
        regexp: "^b$".to_string(),
        multi_line: Some(Boolean::from(true)),
        ..Default::default()
    };
    let re = config.build_regex().unwrap();
    assert!(re.is_match("a\nb\nc"));
    let plain = RegexConfig { regexp: "^b$".to_string(), ..Default::default() };
    assert!(!plain.build_regex().unwrap().is_match("a\nb\nc"));
    let r = Regexp::with_config(config).unwrap();
    assert!(r.regexp().is_match("a\nb\nc"));
    assert!(r.is_match("a\nb\nc"));
}

#[test]
fn line_terminators_set_up_a_builder() {
    let mut b = BuilderSettings::new(r"^foo$");
    b.multi_line = true;
    LineTerminator::Null.setup_builder(&mut b);
    assert_eq!(b.line_terminator, 0u8);
    let re = CompiledRegex::build(b).unwrap();
    assert!(re.is_match("\x00foo\x00"));
    assert!(!re.is_match("\nfoo\n"));

    let mut b = BuilderSettings::new(r"^foo$");
    b.multi_line = true;
    LineTerminator::Crlf.setup_builder(&mut b);
    assert!(b.crlf);
    assert!(CompiledRegex::build(b).unwrap().is_match("\r\nfoo\r\n"));

    let mut b = BuilderSettings::new(".");
    LineTerminator::Cr.setup_builder(&mut b);
    let re = CompiledRegex::build(b).unwrap();
    assert!(re.is_match("\n"));
    assert!(!re.is_match("\r"));
}

#[test]
fn builder_refuses_a_non_ascii_terminator_for_dot() {
    let mut b = BuilderSettings::new(".");
    b.line_terminator = 0x80;
    assert!(CompiledRegex::build(b).is_err());
    let mut b = BuilderSettings::new("a");
    b.line_terminator = 0x80;
    assert!(CompiledRegex::build(b).is_ok());
}

#[test]
fn default_settings_build_as_regex_new_does() {
    assert!(CompiledRegex::build(BuilderSettings::new(r"a\d+")).unwrap().is_match("xa12"));
    assert!(CompiledRegex::new(r"a\d+").unwrap().is_match("xa12"));
    assert!(CompiledRegex::build(BuilderSettings::new("(")).is_err());
    let re = CompiledRegex::new(r"(?<y>\d+)-(\d+)").unwrap();
    assert_eq!(re.capture_names(), vec![None, Some("y".to_string()), None]);
    assert_eq!(re.split("1-2 x 3-4"), vec!["".to_string(), " x ".to_string(), "".to_string()]);
    assert_eq!(re.clone().captures("5-6").len(), 1);
}

#[test]
fn test_invalid_regex_error() {
    let result = Regexp::from_source(RegexSource::Default("[invalid regex".to_string()));
    assert!(result.is_err());
    assert!(Regexp::new("[invalid regex").is_err());
}
