use file_transfer::config::{AutoAccept, ConfigError, FileTransfer};
use file_transfer::policy::{
    decide, evaluate, found, lists_mask, lists_nick, Collation, Decision,
};

fn strings(items: &[&str]) -> Option<Vec<String>> {
    Some(items.iter().map(|s| s.to_string()).collect())
}

fn rules(enabled: bool, nicks: Option<Vec<String>>, masks: Option<Vec<String>>) -> AutoAccept {
    AutoAccept { enabled, nicks, masks }
}

#[test]
fn decide_over_all_findings() {
    for enabled in [false, true] {
        for directory in [false, true] {
            for nick in [false, true] {
                for mask in [false, true] {
                    let expected = if enabled && directory && (nick || mask) {
                        Decision::Allow
                    } else {
                        Decision::Deny
                    };
                    assert_eq!(decide(enabled, directory, nick, mask), expected);
                }
            }
        }
    }
}

#[test]
fn listed_nick_is_allowed() {
    let r = rules(true, strings(&["alice", "bob"]), None);
    let d = evaluate(&r, true, Collation::CaseSensitive, "bob", "bob!b@example.org");
    assert_eq!(d, Decision::Allow);
}

#[test]
fn unlisted_nick_is_denied() {
    let r = rules(true, strings(&["alice", "bob"]), None);
    let d = evaluate(&r, true, Collation::CaseSensitive, "carol", "carol!c@example.org");
    assert_eq!(d, Decision::Deny);
}

#[test]
fn disabled_rules_deny_a_listed_nick() {
    let r = rules(false, strings(&["bob"]), strings(&[".*"]));
    let d = evaluate(&r, true, Collation::CaseSensitive, "bob", "bob!b@example.org");
    assert_eq!(d, Decision::Deny);
}

#[test]
fn no_save_directory_denies() {
    let r = rules(true, strings(&["bob"]), strings(&[".*"]));
    let d = evaluate(&r, false, Collation::CaseSensitive, "bob", "bob!b@example.org");
    assert_eq!(d, Decision::Deny);
}

#[test]
fn absent_lists_allow_nobody() {
    let r = rules(true, None, None);
    let d = evaluate(&r, true, Collation::CaseSensitive, "bob", "bob!b@example.org");
    assert_eq!(d, Decision::Deny);
    let empty = rules(true, strings(&[]), strings(&[]));
    let d = evaluate(&empty, true, Collation::CaseSensitive, "bob", "bob!b@example.org");
    assert_eq!(d, Decision::Deny);
}

#[test]
fn mask_is_searched_in_the_whole_hostmask() {
    let r = rules(true, None, strings(&[r"@.*\.example\.org$"]));
    assert_eq!(
        evaluate(&r, true, Collation::CaseSensitive, "bob", "bob!user@host.example.org"),
        Decision::Allow
    );
    assert_eq!(
        evaluate(&r, true, Collation::CaseSensitive, "bob", "bob!user@host.example.com"),
        Decision::Deny
    );
}

#[test]
fn mask_is_a_pattern_not_a_literal() {
    let masks = strings(&["^a+b$"]);
    assert!(lists_mask(&masks, "aaab"));
    assert!(!lists_mask(&masks, "^a+b$"));
    assert!(!lists_mask(&masks, "b"));
    assert!(!lists_mask(&None, "aaab"));
}

#[test]
fn malformed_mask_matches_nothing() {
    let masks = strings(&["(unclosed", "bob"]);
    assert!(!lists_mask(&masks, "(unclosed"));
    assert!(lists_mask(&masks, "bob!b@host"));
}

#[test]
fn nick_comparison_follows_the_collation() {
    let nicks = strings(&["Bob[away]"]);
    assert!(lists_nick(&nicks, Collation::CaseSensitive, "Bob[away]"));
    assert!(!lists_nick(&nicks, Collation::CaseSensitive, "bob[away]"));
    assert!(lists_nick(&nicks, Collation::Ascii, "bob[AWAY]"));
    assert!(!lists_nick(&nicks, Collation::Ascii, "bob{away}"));
    assert!(lists_nick(&nicks, Collation::Rfc1459, "bob{away}"));
    assert!(!lists_nick(&nicks, Collation::Rfc1459, "bob{away"));
    assert!(!lists_nick(&None, Collation::Rfc1459, "bob"));
}

#[test]
fn collation_folds_characters() {
    assert_eq!(Collation::CaseSensitive.folded('A'), 'A');
    assert_eq!(Collation::Ascii.folded('A'), 'a');
    assert_eq!(Collation::Ascii.folded('Z'), 'z');
    assert_eq!(Collation::Ascii.folded('['), '[');
    assert_eq!(Collation::Rfc1459.folded('['), '{');
    assert_eq!(Collation::Rfc1459.folded('\\'), '|');
    assert_eq!(Collation::Rfc1459.folded(']'), '}');
    assert_eq!(Collation::Rfc1459.folded('^'), '~');
    assert_eq!(Collation::Rfc1459.folded('_'), '_');
    assert_eq!(Collation::Rfc1459.folded('é'), 'é');
    assert!(Collation::Ascii.matches("ÉCOLE", "École"));
    assert!(!Collation::Ascii.matches("éCOLE", "École"));
    assert!(Collation::Ascii.matches("", ""));
    assert!(!Collation::Ascii.matches("a", "ab"));
}

#[test]
fn validate_accepts_well_formed_masks() {
    let r = rules(true, None, strings(&[r"^\w+!\w+@.*$", "bob"]));
    assert_eq!(r.validate(), Ok(()));
    assert_eq!(rules(true, None, None).validate(), Ok(()));
    assert_eq!(rules(true, None, strings(&[])).validate(), Ok(()));
}

#[test]
fn validate_names_the_first_malformed_mask() {
    let r = rules(true, None, strings(&["fine", "(unclosed", "[also"]));
    assert_eq!(r.validate(), Err(ConfigError::MalformedMask(1)));
    let mut config = FileTransfer::default();
    config.auto_accept = rules(false, None, strings(&["*"]));
    assert_eq!(config.validate(), Err(ConfigError::MalformedMask(0)));
}

#[test]
fn search_outcome_counts_only_as_found_when_it_found() {
    assert!(found(Some(true)));
    assert!(!found(Some(false)));
    assert!(!found(None));
}
