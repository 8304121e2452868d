use db_migrator::helpers::format_error_chain;
use db_migrator::strings::{i64_to_string, join_strings, u64_to_string};

#[test]
fn decimal_rendering_matches_display() {
    assert_eq!(u64_to_string(0), "0");
    assert_eq!(u64_to_string(105), "105");
    assert_eq!(u64_to_string(u64::MAX), u64::MAX.to_string());
    assert_eq!(i64_to_string(-7), "-7");
    assert_eq!(i64_to_string(i64::MIN), i64::MIN.to_string());
}

#[test]
fn join_inserts_separator_between_parts() {
    let parts = vec!["a".to_string(), "b".to_string(), "c".to_string()];
    assert_eq!(join_strings(&parts, ", "), "a, b, c");
    assert_eq!(join_strings(&vec!["solo".to_string()], ", "), "solo");
    assert_eq!(join_strings(&Vec::new(), ", "), "");
}

#[test]
fn error_chain_indents_causes_under_the_head() {
    let messages = vec![
        "Migration failed".to_string(),
        "query timed out".to_string(),
        "connection dropped".to_string(),
    ];
    assert_eq!(
        format_error_chain(&messages),
        "Migration failed\n       \u{2514}> query timed out\n       \u{2514}> connection dropped"
    );
}

#[test]
fn single_cause_chain_has_one_line() {
    let messages = vec!["just this".to_string()];
    assert_eq!(format_error_chain(&messages), "just this");
}
