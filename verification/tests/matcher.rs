use ingram::config::Rule;
use ingram::fingerprint::{
    build_url, check_one_rule, fingerprint_next, parse_rule, FingerprintStep, ResponseCache,
};

fn rule(product: &str, path: &str, val: &str) -> Rule {
    Rule {
        product: product.to_string(),
        path: path.to_string(),
        val: val.to_string(),
    }
}

#[test]
fn title_predicate_matches_case_insensitively() {
    let body = "<html><head><title>Demo Cam 3000</title></head></html>";
    assert!(check_one_rule(body, "title=`demo`"));
    assert!(check_one_rule(body, "title=`DEMO CAM`"));
    assert!(!check_one_rule(body, "title=`other`"));
    // no title element at all: no match, even for the empty needle
    assert!(!check_one_rule("<html><p>x</p></html>", "title=``"));
    // the needle must sit in the title text, not elsewhere in the document
    assert!(!check_one_rule(
        "<html><title>Cam</title><p>demo</p></html>",
        "title=`demo`"
    ));
}

#[test]
fn body_predicate_matches_case_insensitively() {
    let body = "<html><body>Network Video Recorder</body></html>";
    assert!(check_one_rule(body, "body=`video recorder`"));
    assert!(!check_one_rule(body, "body=`webcam`"));
    // the needle must sit in the body text, not elsewhere in the document
    assert!(!check_one_rule(
        "<html><head><title>webcam</title></head><body>x</body></html>",
        "body=`webcam`"
    ));
}

#[test]
fn md5_predicate_hashes_the_raw_body() {
    assert!(check_one_rule(
        "abc",
        "md5=`900150983cd24fb0d6963f7d28e17f72`"
    ));
    assert!(!check_one_rule(
        "abcd",
        "md5=`900150983cd24fb0d6963f7d28e17f72`"
    ));
}

#[test]
fn reserved_and_unknown_predicates_never_hold() {
    assert!(!check_one_rule("anything", "headers=`x`"));
    assert!(!check_one_rule("anything", "status_code=`200`"));
    assert!(!check_one_rule("anything", "frobnicate=`x`"));
    assert!(!check_one_rule("anything", "no predicate shape"));
    assert!(!check_one_rule("anything", "title=missing-backticks"));
}

#[test]
fn matcher_is_a_conjunction() {
    let body = "<html><head><title>Demo</title></head><body>cam here</body></html>";
    assert!(parse_rule(body, "title=`demo`&&body=`cam`"));
    assert!(!parse_rule(body, "title=`demo`&&body=`absent`"));
    assert!(!parse_rule(body, "title=`absent`&&body=`cam`"));
    assert!(parse_rule(body, "title=`demo`"));
}

#[test]
fn first_matching_rule_wins() {
    // two rules satisfied by the same response, different products: the
    // earlier one decides
    let rules = vec![
        rule("first-product", "/", "title=`cam`"),
        rule("second-product", "/", "title=`cam`"),
    ];
    let mut cache = ResponseCache::new();
    cache.insert(
        "/".to_string(),
        Some("<title>IP Cam</title>".to_string()),
    );
    match fingerprint_next(&rules, &cache, 0, "10.0.0.1", 80) {
        FingerprintStep::Done { product } => assert_eq!(product.as_deref(), Some("first-product")),
        _ => panic!("expected a verdict"),
    }
}

#[test]
fn fetch_once_per_path_and_skip_failures() {
    let rules = vec![
        rule("a", "/x", "title=`cam`"),
        rule("b", "/x", "body=`cam`"),
        rule("c", "/y", "title=`cam`"),
    ];
    let mut cache = ResponseCache::new();
    // the engine first wants /x fetched, exactly once for both rules
    match fingerprint_next(&rules, &cache, 0, "10.0.0.1", 80) {
        FingerprintStep::Fetch { rule_index, url } => {
            assert_eq!(rule_index, 0);
            assert_eq!(url, "http://10.0.0.1:80/x");
        }
        _ => panic!("expected a fetch"),
    }
    // /x failed: both /x rules are skipped, /y is wanted next
    cache.insert("/x".to_string(), None);
    match fingerprint_next(&rules, &cache, 0, "10.0.0.1", 80) {
        FingerprintStep::Fetch { rule_index, url } => {
            assert_eq!(rule_index, 2);
            assert_eq!(url, "http://10.0.0.1:80/y");
        }
        _ => panic!("expected a fetch"),
    }
    // /y satisfied rule c
    cache.insert("/y".to_string(), Some("<title>cam</title>".to_string()));
    match fingerprint_next(&rules, &cache, 0, "10.0.0.1", 80) {
        FingerprintStep::Done { product } => assert_eq!(product.as_deref(), Some("c")),
        _ => panic!("expected a verdict"),
    }
}

#[test]
fn no_rule_satisfied_yields_no_classification() {
    let rules = vec![rule("a", "/", "title=`cam`")];
    let mut cache = ResponseCache::new();
    cache.insert("/".to_string(), Some("<title>printer</title>".to_string()));
    match fingerprint_next(&rules, &cache, 0, "10.0.0.1", 80) {
        FingerprintStep::Done { product } => assert!(product.is_none()),
        _ => panic!("expected a verdict"),
    }
}

#[test]
fn url_building() {
    assert_eq!(build_url("10.0.0.1", 8080, "/path"), "http://10.0.0.1:8080/path");
    assert_eq!(build_url("cam.example", 80, "/"), "http://cam.example:80/");
}
