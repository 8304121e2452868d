use db_migrator::query::{
    build_create_constraints, build_create_table_query, build_insert_statement, build_reset_query,
    TableAction,
};
use db_migrator::schema::{ColumnSchema, Constraint};

fn column(name: &str, data_type: &str) -> ColumnSchema {
    ColumnSchema {
        column_name: name.to_string(),
        data_type: data_type.to_string(),
        character_maximum_length: None,
        numeric_precision: None,
        numeric_scale: None,
        is_nullable: true,
        constraints: None,
    }
}

#[test]
fn insert_statement_lists_columns_in_order() {
    let schema = vec![column("id", "INT"), column("name", "VARCHAR")];
    assert_eq!(
        build_insert_statement("users", &schema),
        "INSERT INTO `users` (id, name) VALUES"
    );
}

#[test]
fn reset_query_drops_each_table_on_its_own_line() {
    let tables = vec!["a".to_string(), "b".to_string()];
    assert_eq!(
        build_reset_query(&tables, &TableAction::Drop),
        "DROP TABLE `a`;\nDROP TABLE `b`;"
    );
}

#[test]
fn reset_query_truncates_when_asked() {
    let tables = vec!["a".to_string()];
    assert_eq!(
        build_reset_query(&tables, &TableAction::Truncate),
        "TRUNCATE TABLE `a`;"
    );
}

#[test]
fn create_table_renders_length_nullability_and_primary_key() {
    let mut id = column("id", "INT");
    id.is_nullable = false;
    id.constraints = Some(Constraint::PrimaryKey);
    let mut name = column("name", "VARCHAR");
    name.character_maximum_length = Some(255);
    assert_eq!(
        build_create_table_query("users", &vec![id, name]),
        "CREATE TABLE `users` (id INT PRIMARY KEY NOT NULL, name VARCHAR(255) NULL)"
    );
}

#[test]
fn create_table_renders_precision_and_scale() {
    let mut amount = column("amount", "DECIMAL");
    amount.numeric_precision = Some(18);
    amount.numeric_scale = Some(4);
    let mut count = column("count", "DECIMAL");
    count.numeric_precision = Some(10);
    assert_eq!(
        build_create_table_query("ledger", &vec![amount, count]),
        "CREATE TABLE `ledger` (amount DECIMAL(18, 4) NULL, count DECIMAL(10) NULL)"
    );
}

#[test]
fn constraints_statement_covers_each_deferred_kind() {
    let mut fk = column("customer_id", "INT");
    fk.constraints = Some(Constraint::ForeignKey {
        referenced_table: "customers".to_string(),
        referenced_column: "id".to_string(),
    });
    let mut uq = column("email", "VARCHAR");
    uq.constraints = Some(Constraint::Unique);
    let mut ck = column("age", "INT");
    ck.constraints = Some(Constraint::Check("age > 0".to_string()));
    let mut df = column("active", "INT");
    df.constraints = Some(Constraint::Default("1".to_string()));
    let query = build_create_constraints("orders", &vec![fk, uq, ck, df]).unwrap();
    assert_eq!(
        query,
        "SET FOREIGN_KEY_CHECKS=0; ALTER TABLE `orders` \
         ADD FOREIGN KEY(`customer_id`) REFERENCES `customers`(`id`) ON DELETE CASCADE, \
         ADD UNIQUE(`email`), ADD CHECK (age > 0), ADD DEFAULT 1"
    );
}

#[test]
fn primary_keys_and_bare_columns_defer_nothing() {
    let mut pk = column("id", "INT");
    pk.constraints = Some(Constraint::PrimaryKey);
    let plain = column("name", "VARCHAR");
    assert!(build_create_constraints("users", &vec![pk, plain]).is_none());
}
