use pyaket::environment::parse_bool;
use pyaket::environment::Environment;

#[test]
fn set_get_and_unset() {
    let mut env = Environment::new();
    assert_eq!(env.get("NAME", None), None);
    env.set("NAME", "value");
    assert_eq!(env.get("NAME", None), Some("value".to_string()));
    env.set("NAME", "other");
    assert_eq!(env.get("NAME", None), Some("other".to_string()));
    env.unset("NAME");
    assert_eq!(env.get("NAME", None), None);
}

#[test]
fn defaults_fill_only_gaps() {
    let mut env = Environment::new();
    env.setdefault("A", "first");
    env.setdefault("A", "second");
    assert_eq!(env.uget("A", "fallback"), "first");
    assert_eq!(env.uget("MISSING", "fallback"), "fallback");
    assert!(env.is_set("A"));
    assert!(!env.is_set("MISSING"));
}

#[test]
fn keys_keep_insertion_order() {
    let mut env = Environment::new();
    env.set("ONE", "1");
    env.set("TWO", "2");
    env.set("ONE", "updated");
    assert_eq!(env.keys(), vec!["ONE".to_string(), "TWO".to_string()]);
}

#[test]
fn boolean_parsing_is_case_insensitive() {
    assert_eq!(parse_bool("true"), Some(true));
    assert_eq!(parse_bool("TRUE"), Some(true));
    assert_eq!(parse_bool("Yes"), Some(true));
    assert_eq!(parse_bool("1"), Some(true));
    assert_eq!(parse_bool("on"), Some(true));
    assert_eq!(parse_bool("false"), Some(false));
    assert_eq!(parse_bool("No"), Some(false));
    assert_eq!(parse_bool("0"), Some(false));
    assert_eq!(parse_bool("OFF"), Some(false));
    assert_eq!(parse_bool("banana"), None);
    assert_eq!(parse_bool(""), None);
}

#[test]
fn boolean_lookup_with_defaults() {
    let mut env = Environment::new();
    assert!(env.ubool("ROLLING", true));
    assert!(!env.ubool("ROLLING", false));
    env.set("ROLLING", "yes");
    assert!(env.ubool("ROLLING", false));
    env.set("ROLLING", "nonsense");
    assert!(!env.ubool("ROLLING", false));
    assert!(env.ubool("ROLLING", true));
    assert_eq!(env.get_bool("ROLLING", Some(true)), None);
}
