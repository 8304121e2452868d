use db_migrator::error::MigrationError;
use db_migrator::migrate::{
    check_missing_tables, check_packet_size, filter_created_results, filter_existing_tables,
    filter_whitelisted_tables, format_table_names, plan_table_migration,
    process_migration_results, MigrationResult, TablePlan,
};

#[test]
fn packet_size_within_allowance_passes_preflight() {
    assert!(check_packet_size(4096, 4096).is_ok());
    assert!(check_packet_size(100, 4096).is_ok());
}

#[test]
fn packet_size_over_allowance_fails_preflight() {
    let err = check_packet_size(8192, 4096).unwrap_err();
    match err {
        MigrationError::PacketSizeExceeded { configured, allowed } => {
            assert_eq!(configured, 8192);
            assert_eq!(allowed, 4096);
        }
        other => panic!("unexpected error: {:?}", other),
    }
}

#[test]
fn missing_tables_are_the_whitelisted_names_the_source_lacks() {
    let tables = vec!["orders".to_string(), "customers".to_string()];
    let whitelist = vec![
        "customers".to_string(),
        "ghosts".to_string(),
        "orders".to_string(),
        "phantoms".to_string(),
    ];
    assert_eq!(check_missing_tables(&tables, &whitelist), vec!["ghosts", "phantoms"]);
}

#[test]
fn whitelist_filter_keeps_source_order() {
    let tables = vec![
        "a".to_string(),
        "b".to_string(),
        "c".to_string(),
        "d".to_string(),
    ];
    let whitelist = vec!["d".to_string(), "b".to_string()];
    assert_eq!(filter_whitelisted_tables(&tables, &whitelist), vec!["b", "d"]);
}

#[test]
fn table_names_format_only_when_asked() {
    let tables = vec!["OrderLines".to_string()];
    assert_eq!(format_table_names(&tables, true), vec!["order_lines"]);
    assert_eq!(format_table_names(&tables, false), vec!["OrderLines"]);
}

#[test]
fn missing_table_creates_then_loads() {
    let plan = plan_table_migration("orders", false, 0).unwrap();
    assert!(matches!(plan, TablePlan::CreateAndLoad));
}

#[test]
fn empty_existing_table_is_loaded_without_creation() {
    let plan = plan_table_migration("orders", true, 0).unwrap();
    assert!(matches!(plan, TablePlan::LoadExisting));
}

#[test]
fn populated_table_is_left_untouched() {
    let err = plan_table_migration("orders", true, 12).unwrap_err();
    match err {
        MigrationError::TableAlreadyPopulated(table) => assert_eq!(table, "orders"),
        other => panic!("unexpected error: {:?}", other),
    }
}

#[test]
fn migration_outcome_records_creation() {
    let created = MigrationResult::new("t".to_string(), Vec::new(), false);
    assert!(created.created);
    let reused = MigrationResult::new("t".to_string(), Vec::new(), true);
    assert!(!reused.created);
}

#[test]
fn results_split_into_successes_and_errors_in_order() {
    let results = vec![
        Ok(MigrationResult::new("a".to_string(), Vec::new(), false)),
        Err(MigrationError::SchemaFetchError("b".to_string())),
        Ok(MigrationResult::new("c".to_string(), Vec::new(), true)),
        Err(MigrationError::TableAlreadyPopulated("d".to_string())),
    ];
    let (okays, errors) = process_migration_results(results);
    assert_eq!(okays.len(), 2);
    assert_eq!(okays[0].table_name, "a");
    assert_eq!(okays[1].table_name, "c");
    assert_eq!(errors.len(), 2);
    assert!(matches!(&errors[0], MigrationError::SchemaFetchError(t) if t == "b"));
    assert!(matches!(&errors[1], MigrationError::TableAlreadyPopulated(t) if t == "d"));
}

#[test]
fn error_messages_name_their_subject() {
    assert_eq!(
        MigrationError::MappingNotFound("geography".to_string()).message(),
        "Mapping not found for data type: geography"
    );
    assert_eq!(
        MigrationError::TableAlreadyPopulated("orders".to_string()).message(),
        "Rows already exists in table orders"
    );
    assert_eq!(
        MigrationError::BatchExecutionError { table: "orders".to_string(), batch_size_bytes: 512 }
            .message(),
        "Failed to execute transactional query batch of 512 bytes for table orders"
    );
    assert_eq!(
        MigrationError::PacketSizeExceeded { configured: 2, allowed: 1 }.message(),
        "Configured send packet size exceeds maximum allowed packet size"
    );
    assert_eq!(
        MigrationError::ConnectionError("counting rows of orders".to_string()).message(),
        "Connection failure: counting rows of orders"
    );
    assert_eq!(
        MigrationError::TableCreationError("orders".to_string()).message(),
        "Failed to create table orders"
    );
    assert_eq!(
        MigrationError::SchemaFetchError("orders".to_string()).message(),
        "Failed to get table schema for orders"
    );
    assert_eq!(
        MigrationError::ConstraintCreationError("orders".to_string()).message(),
        "Error while creating constraints for table: orders"
    );
}

#[test]
fn only_tables_created_this_run_get_the_constraint_pass() {
    let results = vec![
        MigrationResult::new("fresh".to_string(), Vec::new(), false),
        MigrationResult::new("reused".to_string(), Vec::new(), true),
        MigrationResult::new("another".to_string(), Vec::new(), false),
    ];
    let created = filter_created_results(results);
    assert_eq!(created.len(), 2);
    assert_eq!(created[0].table_name, "fresh");
    assert_eq!(created[1].table_name, "another");
}

#[test]
fn reset_touches_only_existing_wanted_tables_ignoring_case() {
    let existing = vec![
        "Orders".to_string(),
        "archive".to_string(),
        "CUSTOMERS".to_string(),
    ];
    let wanted = vec!["orders".to_string(), "customers".to_string()];
    assert_eq!(
        filter_existing_tables(&existing, &wanted),
        vec!["Orders", "CUSTOMERS"]
    );
}
