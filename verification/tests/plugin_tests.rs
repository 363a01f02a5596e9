use recog::{
    AnyMatcher, Example, FuzzyPatternMatcher, Param, PatternMatcher, PatternMatcherRegistry,
    PluginFingerprint, RegexPatternMatcher, StringPatternMatcher,
};

#[test]
fn test_regex_matcher() {
    let matcher = RegexPatternMatcher::new(r"^Apache/(\d+\.\d+)", "Apache Server").unwrap();
    let result = matcher.matches("Apache/2.4.41").unwrap();

    assert!(result.matched);
    // With `(\d+\.\d+)` the greedy scan stops before the second dot.
    assert_eq!(result.params.get("capture_1"), Some(&"2.4".to_string()));
    assert_eq!(result.confidence, 1000);
}

#[test]
fn test_string_matcher() {
    let matcher = StringPatternMatcher::new("exact match".to_string(), "Exact match test");
    let result = matcher.matches("exact match").unwrap();

    assert!(result.matched);
    assert_eq!(
        result.params.get("matched_string"),
        Some(&"exact match".to_string())
    );
}

#[test]
fn test_fuzzy_matcher() {
    let matcher = FuzzyPatternMatcher::new("apache".to_string(), "Fuzzy Apache match", 800);

    // Exact match.
    let result1 = matcher.matches("apache").unwrap();
    assert!(result1.matched);
    assert!(result1.confidence >= 800);

    // Similar match.
    let result2 = matcher.matches("apach").unwrap();
    assert!(result2.matched);
    assert!(result2.confidence < 1000 && result2.confidence >= 800);

    // Dissimilar input.
    let result3 = matcher.matches("nginx").unwrap();
    assert!(!result3.matched);
}

#[test]
fn test_matcher_registry() {
    let mut registry = PatternMatcherRegistry::new();

    let regex_matcher =
        AnyMatcher::Regex(RegexPatternMatcher::new(r"^test", "Test matcher").unwrap());
    registry.register("regex_test".to_string(), regex_matcher);

    let string_matcher =
        AnyMatcher::Exact(StringPatternMatcher::new("hello".to_string(), "String matcher"));
    registry.register("string_test".to_string(), string_matcher);

    assert_eq!(registry.list_matchers().len(), 2);
    assert!(registry.get("regex_test").is_some());
    assert!(registry.get("string_test").is_some());
    assert!(registry.get("nonexistent").is_none());

    // Unregistration.
    assert!(registry.unregister("regex_test"));
    assert_eq!(registry.list_matchers().len(), 1);
    assert!(!registry.unregister("regex_test")); // Should return false.
}

#[test]
fn test_plugin_fingerprint() {
    let examples = vec![Example::new("Apache/2.4.41".to_string())];

    let params = vec![Param::new(1, "version".to_string())];

    let fingerprint = PluginFingerprint::with_regex(
        "apache_server".to_string(),
        r"^Apache/(\d+\.\d+)",
        "Apache HTTP Server",
        examples,
        params,
    )
    .unwrap();

    assert_eq!(fingerprint.id, "apache_server");
    assert_eq!(fingerprint.description, "Apache HTTP Server");

    // Matching.
    let result = fingerprint.test_match("Apache/2.4.41").unwrap();
    assert!(result.matched);
    assert_eq!(result.params.get("capture_1"), Some(&"2.4".to_string()));

    // Example validation.
    let validation = fingerprint.validate_examples().unwrap();
    assert_eq!(validation.len(), 1);
    assert!(validation[0]); // Should be valid.
}

#[test]
fn test_registry_overwrite_keeps_second() {
    let mut registry = PatternMatcherRegistry::new();
    registry.register(
        "shared".to_string(),
        AnyMatcher::Exact(StringPatternMatcher::new("one".to_string(), "first matcher")),
    );
    registry.register(
        "shared".to_string(),
        AnyMatcher::Exact(StringPatternMatcher::new("two".to_string(), "second matcher")),
    );

    assert_eq!(registry.list_matchers().len(), 1);
    let found = registry.get("shared").unwrap();
    assert_eq!(found.description(), "second matcher");
    let outcome = found.matches("two").unwrap();
    assert!(outcome.matched);
}

#[test]
fn test_fuzzy_similarity_param_rendering() {
    let matcher = FuzzyPatternMatcher::new("test".to_string(), "fuzzy", 500);
    let result = matcher.matches("tset").unwrap();
    assert!(result.matched);
    assert_eq!(result.confidence, 500);
    assert_eq!(result.params.get("similarity"), Some(&"0.500".to_string()));
    assert_eq!(result.params.get("matched_string"), Some(&"tset".to_string()));

    let exact = matcher.matches("test").unwrap();
    assert_eq!(exact.params.get("similarity"), Some(&"1.000".to_string()));
}

#[test]
fn test_regex_matcher_skips_nonparticipating_groups() {
    let matcher = RegexPatternMatcher::new(r"^(a)|(b)$", "alternation").unwrap();
    let result = matcher.matches("b").unwrap();
    assert!(result.matched);
    assert!(result.params.get("capture_1").is_none());
    assert_eq!(result.params.get("capture_2"), Some(&"b".to_string()));
}

#[test]
fn test_plugin_fingerprint_base64_example() {
    let examples = vec![Example::new_base64("dGVzdA==".to_string())];
    let fingerprint = PluginFingerprint::new(
        "exact_test".to_string(),
        "exact test".to_string(),
        AnyMatcher::Exact(StringPatternMatcher::new("test".to_string(), "exact test")),
        examples,
        vec![],
    );

    let validation = fingerprint.validate_examples().unwrap();
    assert_eq!(validation, vec![true]);
}

#[test]
fn test_plugin_fingerprint_bad_base64_example() {
    let examples = vec![Example::new_base64("%%%".to_string())];
    let fingerprint = PluginFingerprint::new(
        "bad".to_string(),
        "bad example".to_string(),
        AnyMatcher::Exact(StringPatternMatcher::new("test".to_string(), "exact test")),
        examples,
        vec![],
    );

    let err = fingerprint.validate_examples().unwrap_err();
    assert!(matches!(err, recog::RecogError::Base64 { .. }));
}

#[test]
fn test_clone_box_keeps_configuration() {
    let matcher = StringPatternMatcher::new("hello".to_string(), "greeting");
    let copy = matcher.clone_box();
    assert_eq!(copy.description(), "greeting");
    assert!(copy.matches("hello").unwrap().matched);

    let any = AnyMatcher::Fuzzy(FuzzyPatternMatcher::new("abc".to_string(), "f", 900));
    let any_copy = any.clone();
    assert_eq!(any_copy.description(), "f");
}

#[test]
fn test_example_expected_values() {
    let mut example = Example::new("Apache/2.4.41".to_string());
    example.add_expected("version".to_string(), "2.4.41".to_string());
    assert_eq!(example.expected_values.get("version"), Some(&"2.4.41".to_string()));
    assert!(!example.is_base64);

    let b64 = Example::new_base64("dGVzdA==".to_string());
    assert!(b64.is_base64);
    assert_eq!(b64.decoded_value().unwrap(), "test");
}
