use db_migrator::error::MigrationError;
use db_migrator::mappings::{Mapping, Mappings};
use db_migrator::schema::{ColumnSchema, Constraint};
use db_migrator::table_schema_mapper::TableSchemaMapper;

fn varchar_mapping() -> Mapping {
    Mapping {
        to_type: "VARCHAR".to_string(),
        type_parameters: true,
        numeric_precision: None,
        numeric_scale: None,
        max_characters_length: Some(255),
    }
}

fn decimal_mapping() -> Mapping {
    Mapping {
        to_type: "DECIMAL".to_string(),
        type_parameters: true,
        numeric_precision: Some(18),
        numeric_scale: Some(4),
        max_characters_length: None,
    }
}

fn text_mapping() -> Mapping {
    Mapping {
        to_type: "LONGTEXT".to_string(),
        type_parameters: false,
        numeric_precision: Some(10),
        numeric_scale: Some(2),
        max_characters_length: Some(100),
    }
}

fn table() -> Mappings {
    let mut m = Mappings::new();
    m.insert("nvarchar".to_string(), varchar_mapping());
    m.insert("decimal".to_string(), decimal_mapping());
    m.insert("ntext".to_string(), text_mapping());
    m
}

fn column(data_type: &str) -> ColumnSchema {
    ColumnSchema {
        column_name: "ColName".to_string(),
        data_type: data_type.to_string(),
        character_maximum_length: None,
        numeric_precision: None,
        numeric_scale: None,
        is_nullable: true,
        constraints: None,
    }
}

#[test]
fn unbounded_length_sentinel_maps_to_65535() {
    let mut c = column("nvarchar");
    c.character_maximum_length = Some(-1);
    let out = TableSchemaMapper::map_schema(&table(), &vec![c], false).unwrap();
    assert_eq!(out[0].character_maximum_length, Some(65535));
}

#[test]
fn in_range_length_is_kept() {
    let mut c = column("nvarchar");
    c.character_maximum_length = Some(120);
    let out = TableSchemaMapper::map_schema(&table(), &vec![c], false).unwrap();
    assert_eq!(out[0].character_maximum_length, Some(120));
}

#[test]
fn out_of_range_length_falls_back_to_mapping_maximum() {
    let mut c = column("nvarchar");
    c.character_maximum_length = Some(100_000);
    let out = TableSchemaMapper::map_schema(&table(), &vec![c], false).unwrap();
    assert_eq!(out[0].character_maximum_length, Some(255));
}

#[test]
fn absent_length_falls_back_to_mapping_maximum() {
    let c = column("nvarchar");
    let out = TableSchemaMapper::map_schema(&table(), &vec![c], false).unwrap();
    assert_eq!(out[0].character_maximum_length, Some(255));
}

#[test]
fn zero_scale_clears_scale_despite_mapping_default() {
    let mut c = column("decimal");
    c.numeric_scale = Some(0);
    let out = TableSchemaMapper::map_schema(&table(), &vec![c], false).unwrap();
    assert_eq!(out[0].numeric_scale, None);
}

#[test]
fn absent_scale_takes_mapping_default() {
    let c = column("decimal");
    let out = TableSchemaMapper::map_schema(&table(), &vec![c], false).unwrap();
    assert_eq!(out[0].numeric_scale, Some(4));
    assert_eq!(out[0].numeric_precision, Some(18));
}

#[test]
fn source_precision_and_scale_win_over_defaults() {
    let mut c = column("decimal");
    c.numeric_precision = Some(10);
    c.numeric_scale = Some(2);
    let out = TableSchemaMapper::map_schema(&table(), &vec![c], false).unwrap();
    assert_eq!(out[0].numeric_precision, Some(10));
    assert_eq!(out[0].numeric_scale, Some(2));
}

#[test]
fn parameterless_type_clears_length_precision_and_scale() {
    let mut c = column("ntext");
    c.character_maximum_length = Some(500);
    c.numeric_precision = Some(9);
    c.numeric_scale = Some(3);
    let out = TableSchemaMapper::map_schema(&table(), &vec![c], false).unwrap();
    assert_eq!(out[0].data_type, "LONGTEXT");
    assert_eq!(out[0].character_maximum_length, None);
    assert_eq!(out[0].numeric_precision, None);
    assert_eq!(out[0].numeric_scale, None);
}

#[test]
fn missing_mapping_is_a_per_table_error() {
    let c = column("geography");
    let err = TableSchemaMapper::map_schema(&table(), &vec![c], false).unwrap_err();
    match err {
        MigrationError::MappingNotFound(t) => assert_eq!(t, "geography"),
        other => panic!("unexpected error: {:?}", other),
    }
}

#[test]
fn order_and_count_are_preserved() {
    let mut first = column("nvarchar");
    first.column_name = "A".to_string();
    let mut second = column("decimal");
    second.column_name = "B".to_string();
    let out = TableSchemaMapper::map_schema(&table(), &vec![first, second], false).unwrap();
    assert_eq!(out.len(), 2);
    assert_eq!(out[0].column_name, "A");
    assert_eq!(out[0].data_type, "VARCHAR");
    assert_eq!(out[1].column_name, "B");
    assert_eq!(out[1].data_type, "DECIMAL");
}

#[test]
fn snake_case_formatting_renames_column_and_foreign_key() {
    let mut c = column("nvarchar");
    c.column_name = "CustomerID".to_string();
    c.constraints = Some(Constraint::ForeignKey {
        referenced_table: "CustomerAccounts".to_string(),
        referenced_column: "AccountID".to_string(),
    });
    let out = TableSchemaMapper::map_schema(&table(), &vec![c], true).unwrap();
    assert_eq!(out[0].column_name, "customer_id");
    match out[0].constraints.as_ref().unwrap() {
        Constraint::ForeignKey { referenced_table, referenced_column } => {
            assert_eq!(referenced_table, "customer_accounts");
            assert_eq!(referenced_column, "account_id");
        }
        other => panic!("unexpected constraint: {:?}", other),
    }
}

#[test]
fn other_constraints_pass_through_unchanged() {
    let mut c = column("nvarchar");
    c.constraints = Some(Constraint::Check("x > 0".to_string()));
    let out = TableSchemaMapper::map_schema(&table(), &vec![c], true).unwrap();
    match out[0].constraints.as_ref().unwrap() {
        Constraint::Check(clause) => assert_eq!(clause, "x > 0"),
        other => panic!("unexpected constraint: {:?}", other),
    }
}

#[test]
fn mappings_len_counts_unique_keys_and_insert_replaces() {
    let mut m = table();
    assert_eq!(m.len(), 3);
    m.insert("nvarchar".to_string(), decimal_mapping());
    assert_eq!(m.len(), 3);
    assert_eq!(m.get("nvarchar").unwrap().to_type, "DECIMAL");
    assert!(m.get("unknown").is_none());
}
