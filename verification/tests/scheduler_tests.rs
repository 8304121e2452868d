use db_migrator::migrate::MigrationResult;
use db_migrator::query::build_create_constraints;
use db_migrator::schema::{ColumnSchema, Constraint};
use db_migrator::scheduler::MigrationRun;

#[test]
fn preflight_failure_ends_the_run() {
    let mut run = MigrationRun::new(4, 3);
    assert!(run.preflight(10_000, 4_096).is_err());
}

#[test]
fn at_most_two_tables_hold_permits_with_limit_two() {
    let mut run = MigrationRun::new(2, 5);
    run.preflight(1_024, 4_096).unwrap();
    run.begin_migration();

    let mut started = 0usize;
    let mut finished = 0usize;
    while finished < 5 {
        // Grab every permit on offer, watching the count in hand.
        while run.try_start_table() {
            started += 1;
            assert!(started - finished <= 2, "more than two permits held");
        }
        assert!(started - finished <= 2);
        // One running table completes and frees its permit.
        run.finish_table();
        finished += 1;
    }
    assert_eq!(started, 5);
    assert!(run.begin_constraints());
    run.complete();
}

#[test]
fn permits_are_refused_beyond_the_limit() {
    let mut run = MigrationRun::new(2, 5);
    run.preflight(1, 1).unwrap();
    run.begin_migration();
    assert!(run.try_start_table());
    assert!(run.try_start_table());
    assert!(!run.try_start_table());
    run.finish_table();
    assert!(run.try_start_table());
}

fn orders_schema() -> Vec<ColumnSchema> {
    vec![ColumnSchema {
        column_name: "customer_id".to_string(),
        data_type: "INT".to_string(),
        character_maximum_length: None,
        numeric_precision: None,
        numeric_scale: None,
        is_nullable: false,
        constraints: Some(Constraint::ForeignKey {
            referenced_table: "customers".to_string(),
            referenced_column: "id".to_string(),
        }),
    }]
}

#[test]
fn foreign_key_applies_after_both_tables_exist_despite_order() {
    // Tables migrate in the order [orders, customers]; the constraint
    // phase cannot open until the barrier, so customers exists by the time
    // the foreign key of orders is applied.
    let mut run = MigrationRun::new(2, 2);
    run.preflight(1_024, 4_096).unwrap();
    run.begin_migration();

    assert!(run.try_start_table()); // orders
    assert!(run.try_start_table()); // customers
    let orders = MigrationResult::new("orders".to_string(), orders_schema(), false);
    run.finish_table(); // orders done first
    assert!(!run.begin_constraints(), "constraints must wait for customers");
    let customers = MigrationResult::new("customers".to_string(), Vec::new(), false);
    run.finish_table();
    assert!(run.begin_constraints());

    // Only now is the foreign key statement issued, and it names the
    // customers table that the barrier guaranteed to exist.
    assert!(customers.created);
    assert!(orders.created);
    let query = build_create_constraints(&orders.table_name, &orders.schema).unwrap();
    assert!(query.contains("ALTER TABLE `orders`"));
    assert!(query.contains("REFERENCES `customers`(`id`)"));
    run.complete();
}

#[test]
fn run_without_constraints_completes_from_the_migrate_phase() {
    let mut run = MigrationRun::new(1, 1);
    run.preflight(1, 2).unwrap();
    run.begin_migration();
    assert!(run.try_start_table());
    run.finish_table();
    run.complete();
}
