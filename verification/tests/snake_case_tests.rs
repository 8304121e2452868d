use db_migrator::helpers::format_snake_case;

#[test]
fn capital_after_lowercase_starts_new_segment() {
    assert_eq!(format_snake_case("UserID"), "user_id");
}

#[test]
fn consecutive_capitals_stay_joined() {
    assert_eq!(format_snake_case("IPAddress"), "ip_address");
}

#[test]
fn plain_lowercase_is_unchanged() {
    assert_eq!(format_snake_case("orders"), "orders");
}

#[test]
fn empty_identifier_stays_empty() {
    assert_eq!(format_snake_case(""), "");
}

#[test]
fn leading_capital_gets_no_underscore() {
    assert_eq!(format_snake_case("Orders"), "orders");
}

#[test]
fn capital_after_underscore_gets_no_extra_underscore() {
    assert_eq!(format_snake_case("user_ID"), "user_id");
}

#[test]
fn digits_and_symbols_pass_through() {
    assert_eq!(format_snake_case("Column1Name"), "column1_name");
}

#[test]
fn snake_case_is_idempotent_on_samples() {
    for sample in ["UserID", "IPAddress", "CustomerOrderLine", "already_snake", "ABCdefGHI"] {
        let once = format_snake_case(sample);
        let twice = format_snake_case(&once);
        assert_eq!(once, twice);
    }
}

#[test]
fn word_after_acronym_starts_its_own_segment() {
    assert_eq!(format_snake_case("ABCdef"), "ab_cdef");
    assert_eq!(format_snake_case("HTTPServerID"), "http_server_id");
}
