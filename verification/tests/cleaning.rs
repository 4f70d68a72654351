use plink::{CleanError, CleaningOptions, ClearUrlsConfig, Provider, UrlCleaner};

fn provider(url_pattern: &str) -> Provider {
    Provider {
        url_pattern: url_pattern.to_string(),
        rules: Vec::new(),
        raw_rules: Vec::new(),
        exceptions: Vec::new(),
        redirections: Vec::new(),
        referral_marketing: Vec::new(),
        complete_provider: false,
        force_redirection: false,
    }
}

fn config(providers: Vec<(&str, Provider)>) -> ClearUrlsConfig {
    ClearUrlsConfig {
        providers: providers.into_iter().map(|(n, p)| (n.to_string(), p)).collect(),
    }
}

fn strings(items: &[&str]) -> Vec<String> {
    items.iter().map(|s| s.to_string()).collect()
}

#[test]
fn test_basic_cleaning() {
    let mut google = provider(".*google\\.com.*");
    google.rules = strings(&["utm_source", "utm_medium", "utm_campaign"]);
    let cleaner =
        UrlCleaner::new(config(vec![("Google", google)]), CleaningOptions::default()).unwrap();
    let result = cleaner
        .clean_url("https://google.com/search?q=test&utm_source=newsletter")
        .unwrap();

    assert!(result.changed);
    assert_eq!(result.url.as_str(), "https://google.com/search?q=test");
}

#[test]
fn test_additional_params() {
    let options = CleaningOptions {
        additional_blocked_params: strings(&["fbclid", "gclid"]),
        ..Default::default()
    };

    let cleaner = UrlCleaner::new(config(vec![]), options).unwrap();
    let result = cleaner
        .clean_url("https://example.com/?test=1&fbclid=123&gclid=456")
        .unwrap();

    assert!(result.changed);
    assert_eq!(result.url.as_str(), "https://example.com/?test=1");
}

#[test]
fn localhost_is_skipped_by_default() {
    let mut p = provider(".*");
    p.rules = strings(&["utm_source"]);
    let cleaner = UrlCleaner::new(config(vec![("All", p)]), CleaningOptions::default()).unwrap();
    let result = cleaner.clean_url("http://localhost:8080/?utm_source=x").unwrap();

    assert!(!result.changed);
    assert_eq!(result.url.as_str(), "http://localhost:8080/?utm_source=x");
    assert!(result.applied_rules.is_empty());
}

#[test]
fn localhost_skip_can_be_disabled() {
    let mut p = provider(".*");
    p.rules = strings(&["utm_source"]);
    let options = CleaningOptions { skip_localhost: false, ..Default::default() };
    let cleaner = UrlCleaner::new(config(vec![("All", p)]), options).unwrap();
    let result = cleaner.clean_url("http://localhost:8080/?utm_source=x").unwrap();

    assert!(result.changed);
    assert_eq!(result.url.as_str(), "http://localhost:8080/");
}

#[test]
fn private_range_hosts_are_skipped() {
    let mut p = provider(".*");
    p.rules = strings(&["utm_source"]);
    let cleaner = UrlCleaner::new(config(vec![("All", p)]), CleaningOptions::default()).unwrap();
    for u in [
        "http://127.0.0.1/?utm_source=x",
        "http://10.1.2.3/?utm_source=x",
        "http://192.168.0.1/?utm_source=x",
        "http://172.16.0.1/?utm_source=x",
    ] {
        let result = cleaner.clean_url(u).unwrap();
        assert!(!result.changed);
        assert_eq!(result.url.as_str(), u);
    }
}

#[test]
fn blacklisted_domain_suffix_is_skipped() {
    let mut p = provider(".*");
    p.rules = strings(&["utm_source"]);
    let options = CleaningOptions {
        blacklisted_domains: strings(&["keep.example"]),
        ..Default::default()
    };
    let cleaner = UrlCleaner::new(config(vec![("All", p)]), options).unwrap();
    let result = cleaner.clean_url("https://sub.keep.example/?utm_source=x").unwrap();

    assert!(!result.changed);
    assert_eq!(result.url.as_str(), "https://sub.keep.example/?utm_source=x");
}

#[test]
fn rule_matching_is_case_insensitive_and_whole_string() {
    let mut p = provider(".*t\\.example.*");
    p.rules = strings(&["utm_source"]);
    let cleaner = UrlCleaner::new(config(vec![("T", p)]), CleaningOptions::default()).unwrap();
    let result = cleaner
        .clean_url("https://t.example/?UTM_SOURCE=x&my_utm_source=y&a=1")
        .unwrap();

    assert!(result.changed);
    assert_eq!(result.url.as_str(), "https://t.example/?my_utm_source=y&a=1");
}

#[test]
fn surviving_parameter_order_is_preserved() {
    let mut p = provider(".*t\\.example.*");
    p.rules = strings(&["utm_source"]);
    let cleaner = UrlCleaner::new(config(vec![("T", p)]), CleaningOptions::default()).unwrap();
    let result = cleaner.clean_url("https://t.example/?a=1&utm_source=x&b=2").unwrap();

    assert!(result.changed);
    assert_eq!(result.url.as_str(), "https://t.example/?a=1&b=2");
}

#[test]
fn empty_query_is_dropped_entirely() {
    let mut p = provider(".*t\\.example.*");
    p.rules = strings(&["utm_source"]);
    let cleaner = UrlCleaner::new(config(vec![("T", p)]), CleaningOptions::default()).unwrap();
    let result = cleaner.clean_url("https://t.example/page?utm_source=x").unwrap();

    assert!(result.changed);
    assert_eq!(result.url.as_str(), "https://t.example/page");
}

#[test]
fn complete_provider_cancels_with_url_unmodified() {
    let mut p = provider(".*block\\.example.*");
    p.complete_provider = true;
    let cleaner = UrlCleaner::new(config(vec![("Blocker", p)]), CleaningOptions::default())
        .unwrap();
    let result = cleaner.clean_url("https://block.example/x?a=1").unwrap();

    assert!(result.cancel);
    assert!(!result.redirect);
    assert!(!result.changed);
    assert_eq!(result.url.as_str(), "https://block.example/x?a=1");
    assert_eq!(result.applied_rules, strings(&["Blocker"]));
}

#[test]
fn complete_provider_cleans_normally_without_domain_blocking() {
    let mut p = provider(".*block\\.example.*");
    p.complete_provider = true;
    p.rules = strings(&["utm_source"]);
    let options = CleaningOptions { domain_blocking: false, ..Default::default() };
    let cleaner = UrlCleaner::new(config(vec![("Blocker", p)]), options).unwrap();
    let result = cleaner.clean_url("https://block.example/x?utm_source=1&a=2").unwrap();

    assert!(!result.cancel);
    assert!(result.changed);
    assert_eq!(result.url.as_str(), "https://block.example/x?a=2");
}

#[test]
fn redirection_yields_decoded_destination() {
    let mut p = provider(".*redirect\\.example.*");
    p.redirections = strings(&["[?&]target=([^&]+)"]);
    let cleaner = UrlCleaner::new(config(vec![("Redir", p)]), CleaningOptions::default())
        .unwrap();
    let result = cleaner
        .clean_url("https://redirect.example/?target=https%3A%2F%2Fdest.example%2Fpath%3Fq%3D1")
        .unwrap();

    assert!(result.redirect);
    assert!(result.changed);
    assert!(!result.cancel);
    assert_eq!(result.url.as_str(), "https://dest.example/path?q=1");
    assert_eq!(result.applied_rules, strings(&["Redir", "Redir_redirect"]));
}

#[test]
fn redirect_target_that_is_not_utf8_fails() {
    let mut p = provider(".*redirect\\.example.*");
    p.redirections = strings(&["[?&]target=([^&]+)"]);
    let cleaner = UrlCleaner::new(config(vec![("Redir", p)]), CleaningOptions::default())
        .unwrap();
    let err = cleaner.clean_url("https://redirect.example/?target=%FF").unwrap_err();

    assert_eq!(err, CleanError::RedirectDecode);
}

#[test]
fn redirect_target_that_is_not_a_url_fails() {
    let mut p = provider(".*redirect\\.example.*");
    p.redirections = strings(&["[?&]target=([^&]+)"]);
    let cleaner = UrlCleaner::new(config(vec![("Redir", p)]), CleaningOptions::default())
        .unwrap();
    let err = cleaner.clean_url("https://redirect.example/?target=not-a-url").unwrap_err();

    assert_eq!(err, CleanError::RedirectParse);
}

#[test]
fn unparseable_input_fails() {
    let cleaner = UrlCleaner::new(config(vec![]), CleaningOptions::default()).unwrap();
    let err = cleaner.clean_url("").unwrap_err();

    assert_eq!(err, CleanError::Parse);
}

#[test]
fn raw_rule_deletes_every_match() {
    let mut p = provider(".*rw\\.example.*");
    p.raw_rules = strings(&["&junk=[^&]*"]);
    let cleaner = UrlCleaner::new(config(vec![("Raw", p)]), CleaningOptions::default()).unwrap();
    let result = cleaner.clean_url("https://rw.example/?a=1&junk=zz&junk=yy").unwrap();

    assert!(result.changed);
    assert!(!result.redirect);
    assert_eq!(result.url.as_str(), "https://rw.example/?a=1");
    assert_eq!(result.applied_rules, strings(&["Raw", "Raw_raw_0"]));
}

#[test]
fn raw_rule_that_breaks_the_url_fails() {
    let mut p = provider(".*raw\\.example.*");
    p.raw_rules = strings(&["https://"]);
    let cleaner = UrlCleaner::new(config(vec![("Raw", p)]), CleaningOptions::default()).unwrap();
    let err = cleaner.clean_url("https://raw.example/x").unwrap_err();

    assert_eq!(err, CleanError::RawRuleParse);
}

#[test]
fn exception_suppresses_the_provider() {
    let mut p = provider(".*exc\\.example.*");
    p.rules = strings(&["utm_source"]);
    p.exceptions = strings(&[".*keep.*"]);
    let cleaner = UrlCleaner::new(config(vec![("Exc", p)]), CleaningOptions::default()).unwrap();
    let result = cleaner.clean_url("https://exc.example/keep?utm_source=x").unwrap();

    assert!(!result.changed);
    assert_eq!(result.url.as_str(), "https://exc.example/keep?utm_source=x");
    assert!(result.applied_rules.is_empty());
}

#[test]
fn referral_marketing_rules_follow_the_toggle() {
    let mut p = provider(".*ref\\.example.*");
    p.referral_marketing = strings(&["ref"]);
    let cleaner = UrlCleaner::new(
        config(vec![("Ref", p.clone())]),
        CleaningOptions::default(),
    )
    .unwrap();
    let result = cleaner.clean_url("https://ref.example/?ref=abc").unwrap();
    assert!(result.changed);
    assert_eq!(result.url.as_str(), "https://ref.example/");

    let options = CleaningOptions { apply_referral_marketing: false, ..Default::default() };
    let cleaner = UrlCleaner::new(config(vec![("Ref", p)]), options).unwrap();
    let result = cleaner.clean_url("https://ref.example/?ref=abc").unwrap();
    assert!(!result.changed);
    assert_eq!(result.url.as_str(), "https://ref.example/?ref=abc");
}

#[test]
fn provider_with_bad_pattern_is_dropped_not_fatal() {
    let mut bad = provider("(");
    bad.rules = strings(&["utm_source"]);
    let mut good = provider(".*good\\.example.*");
    good.rules = strings(&["utm_source"]);
    let cleaner = UrlCleaner::new(
        config(vec![("Bad", bad), ("Good", good)]),
        CleaningOptions::default(),
    )
    .unwrap();
    let result = cleaner.clean_url("https://good.example/?utm_source=x&a=1").unwrap();

    assert!(result.changed);
    assert_eq!(result.url.as_str(), "https://good.example/?a=1");
    assert_eq!(result.applied_rules, strings(&["Good"]));
}

#[test]
fn scheme_is_normalized_when_missing() {
    let mut p = provider(".*google\\.com.*");
    p.rules = strings(&["utm_source"]);
    let cleaner = UrlCleaner::new(config(vec![("Google", p)]), CleaningOptions::default())
        .unwrap();
    let result = cleaner.clean_url("google.com/search?utm_source=x").unwrap();

    assert!(result.changed);
    assert_eq!(result.url.as_str(), "https://google.com/search");
}

#[test]
fn providers_apply_in_database_order() {
    let mut first = provider(".*multi\\.example.*");
    first.rules = strings(&["utm_source"]);
    let mut second = provider(".*multi\\.example.*");
    second.rules = strings(&["b"]);
    let cleaner = UrlCleaner::new(
        config(vec![("First", first), ("Second", second)]),
        CleaningOptions::default(),
    )
    .unwrap();
    let result = cleaner.clean_url("https://multi.example/?utm_source=1&b=2&c=3").unwrap();

    assert!(result.changed);
    assert_eq!(result.url.as_str(), "https://multi.example/?c=3");
    assert_eq!(result.applied_rules, strings(&["First", "Second"]));
}

#[test]
fn additional_params_match_exactly_not_case_insensitively() {
    let options = CleaningOptions {
        additional_blocked_params: strings(&["fbclid"]),
        ..Default::default()
    };
    let cleaner = UrlCleaner::new(config(vec![]), options).unwrap();
    let result = cleaner.clean_url("https://example.com/?FBCLID=1&fbclid=2").unwrap();

    assert!(result.changed);
    assert_eq!(result.url.as_str(), "https://example.com/?FBCLID=1");
    assert_eq!(result.applied_rules, strings(&["additional_params"]));
}

#[test]
fn rule_fragments_are_anchored_to_the_whole_name() {
    let mut p = provider(".*t\\.example.*");
    p.rules = strings(&["utm_.*"]);
    let cleaner = UrlCleaner::new(config(vec![("T", p)]), CleaningOptions::default()).unwrap();
    let result = cleaner
        .clean_url("https://t.example/?utm_source=1&utm_medium=2&xutm_source=3")
        .unwrap();

    assert!(result.changed);
    assert_eq!(result.url.as_str(), "https://t.example/?xutm_source=3");
}

#[test]
fn second_pass_makes_no_further_change() {
    let mut p = provider(".*t\\.example.*");
    p.rules = strings(&["utm_source", "utm_medium"]);
    let options = CleaningOptions {
        additional_blocked_params: strings(&["fbclid"]),
        ..Default::default()
    };
    let cleaner = UrlCleaner::new(config(vec![("T", p)]), options).unwrap();
    let first = cleaner
        .clean_url("https://t.example/?a=1&utm_source=x&fbclid=2&utm_medium=y")
        .unwrap();
    assert!(first.changed);

    let second = cleaner.clean_url(first.url.as_str()).unwrap();
    assert!(!second.changed);
    assert_eq!(second.url.as_str(), first.url.as_str());
}
