use vanity_wallet::selector::{
    addr_has_prefix, addr_has_suffix, addr_matches_map, create_selector, is_all_same_char,
    load_prefixes, Selector,
};
use vanity_wallet::cli::Cli;
use vanity_wallet::wallet::Wallet;

fn addr(head: &str, tail: &str) -> String {
    assert_eq!(head.len(), 4);
    assert_eq!(tail.len(), 4);
    format!("0x{}{}{}", head, "0123456789abcdef0123456789abcdef", tail)
}

fn wallet_with(address: &str) -> Wallet {
    Wallet { address: address.to_string(), phrase: "unused".to_string() }
}

#[test]
fn all_same_char_accepts_runs_and_empty() {
    assert!(is_all_same_char("cccc"));
    assert!(is_all_same_char("aaaa"));
    assert!(is_all_same_char(""));
    assert!(!is_all_same_char("dead"));
    assert!(!is_all_same_char("aaab"));
}

#[test]
fn prefix_matches_after_scheme_marker() {
    let a = addr("dead", "beef");
    assert!(addr_has_prefix(&a, "dead"));
    assert!(addr_has_prefix(&a, "d"));
    assert!(addr_has_prefix(&a, ""));
    assert!(!addr_has_prefix(&a, "beef"));
    assert!(!addr_has_prefix(&a, "0x"));
}

#[test]
fn suffix_matches_end_of_encoding() {
    let a = addr("dead", "beef");
    assert!(addr_has_suffix(&a, "beef"));
    assert!(addr_has_suffix(&a, "f"));
    assert!(addr_has_suffix(&a, ""));
    assert!(!addr_has_suffix(&a, "dead"));
}

#[test]
fn dictionary_pair_needs_both_sides() {
    let both = vec!["dead".to_string(), "beef".to_string()];
    assert!(addr_matches_map(&both, &addr("dead", "beef")));
    assert!(addr_matches_map(&both, &addr("beef", "dead")));
    assert!(!addr_matches_map(&both, &addr("dead", "cafe")));

    let only_dead = vec!["dead".to_string()];
    assert!(!addr_matches_map(&only_dead, &addr("dead", "cafe")));
    // The repeated-character fallback needs both sides; a dictionary head
    // does not combine with a repeated-character tail.
    assert!(!addr_matches_map(&only_dead, &addr("dead", "cccc")));
    assert!(addr_matches_map(&only_dead, &addr("aaaa", "cccc")));
    assert!(addr_matches_map(&only_dead, &addr("dead", "dead")));
}

#[test]
fn selector_variants_match_their_rules() {
    let w = wallet_with(&addr("abcd", "beef"));
    assert!(Selector::MatchAll.matches(&w));
    assert!(Selector::Prefix("abc".to_string()).matches(&w));
    assert!(!Selector::Prefix("dead".to_string()).matches(&w));
    assert!(Selector::Suffix("beef".to_string()).matches(&w));
    assert!(!Selector::Suffix("abcd".to_string()).matches(&w));
    assert!(Selector::Dictionary(vec!["abcd".to_string(), "beef".to_string()]).matches(&w));
    assert!(!Selector::Dictionary(vec!["abcd".to_string()]).matches(&w));
}

#[test]
fn load_prefixes_collapses_duplicates() {
    let lines = vec![
        "dead".to_string(),
        "beef".to_string(),
        "dead".to_string(),
        "beef".to_string(),
        "cafe".to_string(),
    ];
    let d = load_prefixes(&lines).unwrap();
    assert_eq!(d, vec!["dead".to_string(), "beef".to_string(), "cafe".to_string()]);
}

#[test]
fn load_prefixes_rejects_wrong_width_token() {
    let lines = vec!["dead".to_string(), "toolong".to_string(), "beef".to_string()];
    let e = load_prefixes(&lines).unwrap_err();
    assert_eq!(e.token, "toolong".to_string());
    assert_eq!(e.length, 7);

    let short = vec!["abc".to_string()];
    let e = load_prefixes(&short).unwrap_err();
    assert_eq!(e.token, "abc".to_string());
    assert_eq!(e.length, 3);
}

#[test]
fn create_selector_precedence() {
    // Dictionary input beats suffix and prefix.
    let args = Cli {
        workers: 1,
        input: Some("words.txt".to_string()),
        prefix: Some("aa".to_string()),
        suffix: Some("bb".to_string()),
    };
    let lines = Some(vec!["dead".to_string()]);
    match create_selector(&args, &lines).unwrap() {
        Selector::Dictionary(d) => assert_eq!(d, vec!["dead".to_string()]),
        _ => panic!("expected the dictionary selector"),
    }

    // Suffix beats prefix.
    let args = Cli {
        workers: 1,
        input: None,
        prefix: Some("aa".to_string()),
        suffix: Some("bb".to_string()),
    };
    match create_selector(&args, &None).unwrap() {
        Selector::Suffix(s) => assert_eq!(s, "bb".to_string()),
        _ => panic!("expected the suffix selector"),
    }

    // Prefix alone.
    let args = Cli { workers: 1, input: None, prefix: Some("aa".to_string()), suffix: None };
    match create_selector(&args, &None).unwrap() {
        Selector::Prefix(p) => assert_eq!(p, "aa".to_string()),
        _ => panic!("expected the prefix selector"),
    }

    // Nothing configured: match-all.
    let args = Cli { workers: 1, input: None, prefix: None, suffix: None };
    assert!(matches!(create_selector(&args, &None).unwrap(), Selector::MatchAll));
}

#[test]
fn create_selector_reports_bad_token() {
    let args = Cli {
        workers: 1,
        input: Some("words.txt".to_string()),
        prefix: None,
        suffix: None,
    };
    let lines = Some(vec!["dead".to_string(), "xy".to_string()]);
    let e = create_selector(&args, &lines).unwrap_err();
    assert_eq!(e.token, "xy".to_string());
    assert_eq!(e.length, 2);
}
