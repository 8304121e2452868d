use db_migrator::batch::{render_value_set, BatchAccumulator};
use db_migrator::query::build_insert_statement;
use db_migrator::schema::ColumnSchema;

fn column(name: &str) -> ColumnSchema {
    ColumnSchema {
        column_name: name.to_string(),
        data_type: "INT".to_string(),
        character_maximum_length: None,
        numeric_precision: None,
        numeric_scale: None,
        is_nullable: true,
        constraints: None,
    }
}

#[test]
fn value_set_renders_parenthesized_tuple() {
    let values = vec!["1".to_string(), "'a'".to_string(), "NULL".to_string()];
    assert_eq!(render_value_set(&values), "(1, 'a', NULL) ");
}

#[test]
fn empty_load_produces_no_batch() {
    let acc = BatchAccumulator::new("INSERT INTO `t` (a) VALUES".to_string(), 100);
    assert!(acc.finish().is_none());
}

#[test]
fn single_row_flushes_only_at_the_end() {
    let stmt = "INSERT INTO `t` (a) VALUES".to_string();
    let mut acc = BatchAccumulator::new(stmt.clone(), 100);
    assert!(acc.push_row("(1) ").is_none());
    let last = acc.finish().unwrap();
    assert_eq!(last, "INSERT INTO `t` (a) VALUES(1) ");
}

#[test]
fn budget_for_two_of_three_rows_gives_batches_of_two_and_one() {
    // The preamble is 26 bytes and each tuple 10 bytes. The flush test
    // reserves 10 bytes and counts the joining comma, so with a 60-byte
    // budget the second tuple still passes (10+36+1+10 = 57) while the
    // third does not (10+47+1+10 = 68): the third row starts a second
    // batch.
    let stmt = "INSERT INTO `t` (a) VALUES".to_string();
    assert_eq!(stmt.len(), 26);
    let tuple = render_value_set(&vec!["'12345'".to_string()]);
    assert_eq!(tuple.len(), 10);

    let mut acc = BatchAccumulator::new(stmt.clone(), 60);
    let mut executed: Vec<String> = Vec::new();
    for _ in 0..3 {
        if let Some(batch) = acc.push_row(&tuple) {
            executed.push(batch);
        }
    }
    if let Some(batch) = acc.finish() {
        executed.push(batch);
    }

    assert_eq!(executed.len(), 2);
    assert_eq!(
        executed[0],
        "INSERT INTO `t` (a) VALUES('12345') ,('12345') "
    );
    assert_eq!(executed[1], "INSERT INTO `t` (a) VALUES('12345') ");
    assert_eq!(executed[0].matches("('12345') ").count(), 2);
    assert_eq!(executed[1].matches("('12345') ").count(), 1);
}

#[test]
fn one_byte_short_of_three_rows_still_splits() {
    // Fitting all three tuples into one batch needs preamble + 3 tuples +
    // 2 commas + the 10 reserved bytes = 68 bytes; at a 67-byte budget the
    // third push must flush, giving two batches of two rows and one.
    let stmt = "INSERT INTO `t` (a) VALUES".to_string();
    let tuple = render_value_set(&vec!["'12345'".to_string()]);
    let mut acc = BatchAccumulator::new(stmt.clone(), 67);
    let mut executed: Vec<String> = Vec::new();
    for _ in 0..3 {
        if let Some(batch) = acc.push_row(&tuple) {
            executed.push(batch);
        }
    }
    if let Some(batch) = acc.finish() {
        executed.push(batch);
    }
    assert_eq!(executed.len(), 2);
    assert_eq!(executed[0].matches("('12345') ").count(), 2);
    assert_eq!(executed[1].matches("('12345') ").count(), 1);
}

#[test]
fn no_executed_batch_exceeds_the_packet_budget() {
    let schema = vec![column("a"), column("b")];
    let stmt = build_insert_statement("measurements", &schema);
    let max_packet_bytes = 120;
    let mut acc = BatchAccumulator::new(stmt, max_packet_bytes);
    let mut executed: Vec<String> = Vec::new();
    for i in 0..50 {
        let tuple = render_value_set(&vec![i.to_string(), (i * i).to_string()]);
        if let Some(batch) = acc.push_row(&tuple) {
            executed.push(batch);
        }
    }
    if let Some(batch) = acc.finish() {
        executed.push(batch);
    }
    assert!(executed.len() > 1);
    for batch in &executed {
        // Every batch leaves the whole 10-byte safety margin free.
        assert!(batch.len() + 10 <= max_packet_bytes, "batch of {} bytes", batch.len());
    }
}

#[test]
fn batches_start_with_the_insert_statement() {
    let stmt = "INSERT INTO `t` (a) VALUES".to_string();
    let mut acc = BatchAccumulator::new(stmt.clone(), 50);
    let mut executed: Vec<String> = Vec::new();
    for i in 0..10 {
        let tuple = render_value_set(&vec![i.to_string()]);
        if let Some(batch) = acc.push_row(&tuple) {
            executed.push(batch);
        }
    }
    if let Some(batch) = acc.finish() {
        executed.push(batch);
    }
    for batch in &executed {
        assert!(batch.starts_with(&stmt));
    }
}
