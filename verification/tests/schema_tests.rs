use db_migrator::schema::{parse_bool_from_string, Constraint};

#[test]
fn primary_key_descriptor_parses() {
    let r = Constraint::from_str("PRIMARY KEY".to_string()).unwrap();
    assert!(matches!(r, Some(Constraint::PrimaryKey)));
}

#[test]
fn foreign_key_descriptor_parses_table_and_column() {
    let r = Constraint::from_str("FOREIGN KEY, customers , id".to_string()).unwrap();
    match r {
        Some(Constraint::ForeignKey { referenced_table, referenced_column }) => {
            assert_eq!(referenced_table, "customers");
            assert_eq!(referenced_column, "id");
        }
        other => panic!("unexpected parse: {:?}", other),
    }
}

#[test]
fn foreign_key_with_wrong_field_count_is_a_hard_error() {
    assert!(Constraint::from_str("FOREIGN KEY, customers".to_string()).is_err());
    assert!(Constraint::from_str("FOREIGN KEY, a, b, c".to_string()).is_err());
}

#[test]
fn unique_descriptor_parses_exactly() {
    let r = Constraint::from_str("UNIQUE".to_string()).unwrap();
    assert!(matches!(r, Some(Constraint::Unique)));
    // Trailing text makes it unrecognized, not unique.
    let r2 = Constraint::from_str("UNIQUE KEY".to_string()).unwrap();
    assert!(r2.is_none());
}

#[test]
fn check_descriptor_stores_the_bare_clause() {
    let r = Constraint::from_str("CHECK (age > 0)".to_string()).unwrap();
    match r {
        Some(Constraint::Check(clause)) => assert_eq!(clause, "age > 0"),
        other => panic!("unexpected parse: {:?}", other),
    }
    // Nested parentheses inside the clause survive: only the framing pair
    // the metadata query added is removed.
    let nested = Constraint::from_str("CHECK ((a) > (b))".to_string()).unwrap();
    match nested {
        Some(Constraint::Check(clause)) => assert_eq!(clause, "(a) > (b)"),
        other => panic!("unexpected parse: {:?}", other),
    }
    // Without the exact frame, the text after the keyword is kept, trimmed.
    let bare = Constraint::from_str("CHECK x".to_string()).unwrap();
    match bare {
        Some(Constraint::Check(clause)) => assert_eq!(clause, "x"),
        other => panic!("unexpected parse: {:?}", other),
    }
}

#[test]
fn default_descriptor_strips_the_keyword() {
    let r = Constraint::from_str("DEFAULT getdate()".to_string()).unwrap();
    match r {
        Some(Constraint::Default(value)) => assert_eq!(value, "getdate()"),
        other => panic!("unexpected parse: {:?}", other),
    }
}

#[test]
fn unrecognized_descriptor_means_no_constraint() {
    assert!(Constraint::from_str("".to_string()).unwrap().is_none());
    assert!(Constraint::from_str("SOMETHING ELSE".to_string()).unwrap().is_none());
}

#[test]
fn nullability_marker_parses_case_insensitively() {
    assert!(parse_bool_from_string("YES".to_string()));
    assert!(parse_bool_from_string("yes".to_string()));
    assert!(!parse_bool_from_string("No".to_string()));
}
