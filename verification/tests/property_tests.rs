use recog::{
    calculate_similarity, levenshtein_distance, Fingerprint, FingerprintDatabase, Matcher, Param,
};

#[test]
fn test_levenshtein_distance() {
    // Frozen fixtures for plain Levenshtein distance, in thousandths:
    // "tset" is two plain edits away from "test", so 1 - 2/4 = 0.500.
    assert_eq!(calculate_similarity("test", "test"), 1000);
    assert_eq!(calculate_similarity("test", "tset"), 500);
    // "testing" is three edits away over length seven: 1 - 3/7 = 0.571...
    assert_eq!(calculate_similarity("test", "testing"), 571);
    assert_eq!(calculate_similarity("", ""), 1000);
    assert_eq!(calculate_similarity("test", ""), 0);
}

#[test]
fn test_levenshtein_distance_values() {
    assert_eq!(levenshtein_distance("test", "test"), 0);
    assert_eq!(levenshtein_distance("test", "tset"), 2);
    assert_eq!(levenshtein_distance("test", "testing"), 3);
    assert_eq!(levenshtein_distance("", "abc"), 3);
    assert_eq!(levenshtein_distance("kitten", "sitting"), 3);
}

#[test]
fn test_similarity_multibyte_counts_characters() {
    // Two three-character strings, one substitution: 1 - 1/3 = 0.667,
    // measured in characters even though the strings differ in byte length.
    assert_eq!(calculate_similarity("ábc", "ábx"), 667);
    assert_eq!(levenshtein_distance("éé", "éa"), 1);
}

#[test]
fn test_determinism_same_results_every_call() {
    let mut fp = Fingerprint::new(r"Apache/(\d+\.\d+)", "Apache HTTP Server").unwrap();
    fp.add_param(Param::new(1, "version".to_string()));
    let mut db = FingerprintDatabase::new();
    db.add_fingerprint(fp);
    let matcher = Matcher::new(db);

    let first = matcher.match_text("Apache/2.4.41 again Apache/9.9");
    let second = matcher.match_text("Apache/2.4.41 again Apache/9.9");
    assert_eq!(first.len(), second.len());
    for (a, b) in first.iter().zip(second.iter()) {
        assert_eq!(a.fingerprint.description, b.fingerprint.description);
        assert_eq!(a.params.get("version"), b.params.get("version"));
        assert_eq!(a.score, b.score);
    }
}

#[test]
fn test_order_preservation() {
    let mut db = FingerprintDatabase::new();
    db.add_fingerprint(Fingerprint::new("^Apache", "A").unwrap());
    db.add_fingerprint(Fingerprint::new("^nginx", "B").unwrap());
    db.add_fingerprint(Fingerprint::new(r"Apache/(\d+)", "C").unwrap());

    let found = db.find_matches("Apache/2 server");
    assert_eq!(found.len(), 2);
    assert_eq!(found[0].0.description, "A");
    assert_eq!(found[1].0.description, "C");
}

#[test]
fn test_capture_completeness() {
    let mut fp = Fingerprint::new(r"^Apache/(\d+\.\d+)", "Apache").unwrap();
    fp.add_param(Param::new(1, "version".to_string()));

    let captured = fp.matches("Apache/2.4.41").unwrap();
    assert_eq!(captured.len(), 1);
    // With `(\d+\.\d+)` the greedy scan stops before the second dot.
    assert_eq!(captured.get("version"), Some(&"2.4".to_string()));

    // A rule shaped for the full version string captures all of it.
    let mut full = Fingerprint::new(r"^Apache/(\d+(?:\.\d+)*)", "Apache").unwrap();
    full.add_param(Param::new(1, "version".to_string()));
    let captured = full.matches("Apache/2.4.41").unwrap();
    assert_eq!(captured.get("version"), Some(&"2.4.41".to_string()));
}

#[test]
fn test_missing_capture_tolerance() {
    let mut fp = Fingerprint::new(r"^Apache/(\d+\.\d+)", "Apache").unwrap();
    fp.add_param(Param::new(5, "beyond".to_string()));
    fp.add_param(Param::new(1, "version".to_string()));

    // The out-of-range rule produces no entry and no error.
    let captured = fp.matches("Apache/2.4.41").unwrap();
    assert!(!captured.contains_key("beyond"));
    assert_eq!(captured.get("version"), Some(&"2.4".to_string()));

    // A rule for a group that did not participate is skipped too.
    let mut alt = Fingerprint::new(r"^(a)|(b)$", "alternation").unwrap();
    alt.add_param(Param::new(1, "left".to_string()));
    alt.add_param(Param::new(2, "right".to_string()));
    let captured = alt.matches("b").unwrap();
    assert!(!captured.contains_key("left"));
    assert_eq!(captured.get("right"), Some(&"b".to_string()));
}

#[test]
fn test_no_match_emptiness() {
    let mut db = FingerprintDatabase::new();
    db.add_fingerprint(Fingerprint::new("^Apache/", "Apache").unwrap());
    let matcher = Matcher::new(db);

    let results = matcher.match_text("nginx/1.20.0");
    assert!(results.is_empty());
}

#[test]
fn test_whole_match_param_position_zero() {
    // Position zero denotes the whole match.
    let mut fp = Fingerprint::new(r"Apache/\d+", "Apache").unwrap();
    fp.add_param(Param::new(0, "whole".to_string()));
    let captured = fp.matches("try Apache/2 now").unwrap();
    assert_eq!(captured.get("whole"), Some(&"Apache/2".to_string()));
}

#[test]
fn test_later_rule_with_same_name_wins() {
    let mut fp = Fingerprint::new(r"(a)(b)", "ab").unwrap();
    fp.add_param(Param::new(1, "x".to_string()));
    fp.add_param(Param::new(2, "x".to_string()));
    let captured = fp.matches("ab").unwrap();
    assert_eq!(captured.get("x"), Some(&"b".to_string()));
}
