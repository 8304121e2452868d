//! Destination SQL text builders: insert preamble, reset statements, table
//! creation, and the deferred constraint statement, each proved to produce
//! exactly the stated text.

use vstd::prelude::*;
use vstd::string::*;
use crate::schema::{ColumnSchema, Constraint};
use crate::strings::{
    dec_str, dec_str_signed, join_seqs, join_strings, push_dec_i128, push_dec_u128,
};

verus! {

/// How existing destination tables are cleared before a run.
#[derive(Debug, Clone, Copy)]
pub enum TableAction {
    Drop,
    Truncate,
}

impl TableAction {
    /// The SQL keyword of this action.
    pub open spec fn keyword_spec(&self) -> Seq<char> {
        match *self {
            TableAction::Drop => "DROP"@,
            TableAction::Truncate => "TRUNCATE"@,
        }
    }

    /// The SQL keyword of this action.
    pub fn keyword(&self) -> (r: &'static str)
        ensures
            r@ == self.keyword_spec(),
    {
        match self {
            TableAction::Drop => "DROP",
            TableAction::Truncate => "TRUNCATE",
        }
    }
}

/// The insert preamble for a table: its name and column list, up to and
/// including the `VALUES` keyword.
pub open spec fn insert_statement_text(table: Seq<char>, cols: Seq<ColumnSchema>) -> Seq<char> {
    "INSERT INTO `"@ + table + "` ("@ + join_seqs(
        cols.map_values(|c: ColumnSchema| c.column_name@),
        ", "@,
    ) + ") VALUES"@
}

/// `INSERT INTO `table` (col, …) VALUES` for the mapped schema.
pub fn build_insert_statement(table_name: &str, schema: &Vec<ColumnSchema>) -> (r: String)
    ensures
        r@ == insert_statement_text(table_name@, schema@),
{
    let mut names: Vec<String> = Vec::new();
    let mut i: usize = 0;
    while i < schema.len()
        invariant
            i <= schema@.len(),
            names@.map_values(|s: String| s@) == schema@.take(i as int).map_values(
                |c: ColumnSchema| c.column_name@,
            ),
        decreases schema@.len() - i,
    {
        let ghost on = names@;
        names.push(schema[i].column_name.clone());
        proof {
            on.lemma_push_map_commute(|s: String| s@, names@[i as int]);
            schema@.lemma_map_take_succ(|c: ColumnSchema| c.column_name@, i as int);
        }
        i = i + 1;
        assert(names@.map_values(|s: String| s@) =~~= schema@.take(i as int).map_values(
            |c: ColumnSchema| c.column_name@,
        ));
    }
    proof {
        assert(schema@.take(schema@.len() as int) =~= schema@);
    }
    let joined = join_strings(&names, ", ");
    let mut s = String::new();
    s.append("INSERT INTO `");
    s.append(table_name);
    s.append("` (");
    s.append(joined.as_str());
    s.append(") VALUES");
    proof {
        assert(s@ =~= insert_statement_text(table_name@, schema@));
    }
    s
}

/// One reset statement per table.
pub open spec fn reset_line(table: Seq<char>, action: TableAction) -> Seq<char> {
    action.keyword_spec() + " TABLE `"@ + table + "`;"@
}

/// The statements clearing every listed table, one per line.
pub open spec fn reset_query_text(tables: Seq<Seq<char>>, action: TableAction) -> Seq<char> {
    join_seqs(tables.map_values(|t: Seq<char>| reset_line(t, action)), "\n"@)
}

/// `DROP`s or `TRUNCATE`s every listed table, one statement per line.
pub fn build_reset_query(tables: &Vec<String>, action: &TableAction) -> (r: String)
    ensures
        r@ == reset_query_text(tables@.map_values(|t: String| t@), *action),
{
    let ghost views = tables@.map_values(|t: String| t@);
    let mut lines: Vec<String> = Vec::new();
    let mut i: usize = 0;
    while i < tables.len()
        invariant
            i <= tables@.len(),
            views == tables@.map_values(|t: String| t@),
            lines@.map_values(|s: String| s@) == views.take(i as int).map_values(
                |t: Seq<char>| reset_line(t, *action),
            ),
        decreases tables@.len() - i,
    {
        let mut line = String::new();
        line.append(action.keyword());
        line.append(" TABLE `");
        line.append(tables[i].as_str());
        line.append("`;");
        proof {
            assert(views[i as int] == tables@[i as int]@);
            assert(line@ =~= reset_line(views[i as int], *action));
        }
        let ghost on = lines@;
        lines.push(line);
        proof {
            on.lemma_push_map_commute(|s: String| s@, lines@[i as int]);
            views.lemma_map_take_succ(|t: Seq<char>| reset_line(t, *action), i as int);
        }
        i = i + 1;
        assert(lines@.map_values(|s: String| s@) =~~= views.take(i as int).map_values(
            |t: Seq<char>| reset_line(t, *action),
        ));
    }
    proof {
        assert(views.take(views.len() as int) =~= views);
        assert(views.map_values(|t: Seq<char>| reset_line(t, *action)) =~~= tables@.map_values(
            |t: String| t@,
        ).map_values(|t: Seq<char>| reset_line(t, *action)));
    }
    join_strings(&lines, "\n")
}

/// The type parameter text after a column's destination type: a character
/// length, else precision with optional scale, else nothing.
pub open spec fn column_params_text(c: ColumnSchema) -> Seq<char> {
    match c.character_maximum_length {
        Option::Some(len) => "("@ + dec_str_signed(len as int) + ")"@,
        Option::None => match c.numeric_precision {
            Option::Some(p) => match c.numeric_scale {
                Option::Some(sc) => "("@ + dec_str(p as nat) + ", "@ + dec_str_signed(sc as int)
                    + ")"@,
                Option::None => "("@ + dec_str(p as nat) + ")"@,
            },
            Option::None => Seq::empty(),
        },
    }
}

/// The inline primary-key marker of a column.
pub open spec fn pk_marker_text(c: ColumnSchema) -> Seq<char> {
    if c.constraints matches Option::Some(Constraint::PrimaryKey) {
        " PRIMARY KEY"@
    } else {
        Seq::empty()
    }
}

/// The nullability marker of a column.
pub open spec fn null_marker_text(c: ColumnSchema) -> Seq<char> {
    if c.is_nullable {
        "NULL"@
    } else {
        "NOT NULL"@
    }
}

/// One column definition inside a `CREATE TABLE` statement.
pub open spec fn column_def_text(c: ColumnSchema) -> Seq<char> {
    c.column_name@ + " "@ + c.data_type@ + column_params_text(c) + pk_marker_text(c) + " "@
        + null_marker_text(c)
}

/// Renders one column definition.
fn column_definition(column: &ColumnSchema) -> (r: String)
    ensures
        r@ == column_def_text(*column),
{
    let mut s = String::new();
    s.append(column.column_name.as_str());
    s.append(" ");
    s.append(column.data_type.as_str());
    match column.character_maximum_length {
        Some(max_length) => {
            s.append("(");
            push_dec_i128(&mut s, max_length as i128);
            s.append(")");
        },
        None => {
            match column.numeric_precision {
                Some(precision) => {
                    s.append("(");
                    push_dec_u128(&mut s, precision as u128);
                    match column.numeric_scale {
                        Some(scale) => {
                            s.append(", ");
                            push_dec_i128(&mut s, scale as i128);
                        },
                        None => {},
                    }
                    s.append(")");
                },
                None => {},
            }
        },
    }
    let is_pk = match &column.constraints {
        Some(Constraint::PrimaryKey) => true,
        _ => false,
    };
    if is_pk {
        s.append(" PRIMARY KEY");
    }
    s.append(" ");
    if column.is_nullable {
        s.append("NULL");
    } else {
        s.append("NOT NULL");
    }
    proof {
        assert(s@ =~= column_def_text(*column));
    }
    s
}

/// The full `CREATE TABLE` statement for a mapped schema.
pub open spec fn create_table_text(table: Seq<char>, cols: Seq<ColumnSchema>) -> Seq<char> {
    "CREATE TABLE `"@ + table + "` ("@ + join_seqs(
        cols.map_values(|c: ColumnSchema| column_def_text(c)),
        ", "@,
    ) + ")"@
}

/// Builds the `CREATE TABLE` statement: every column definition in source
/// order, comma-separated.
pub fn build_create_table_query(table_name: &str, schema: &Vec<ColumnSchema>) -> (r: String)
    ensures
        r@ == create_table_text(table_name@, schema@),
{
    let mut defs: Vec<String> = Vec::new();
    let mut i: usize = 0;
    while i < schema.len()
        invariant
            i <= schema@.len(),
            defs@.map_values(|s: String| s@) == schema@.take(i as int).map_values(
                |c: ColumnSchema| column_def_text(c),
            ),
        decreases schema@.len() - i,
    {
        let ghost on = defs@;
        defs.push(column_definition(&schema[i]));
        proof {
            on.lemma_push_map_commute(|s: String| s@, defs@[i as int]);
            schema@.lemma_map_take_succ(|c: ColumnSchema| column_def_text(c), i as int);
        }
        i = i + 1;
        assert(defs@.map_values(|s: String| s@) =~~= schema@.take(i as int).map_values(
            |c: ColumnSchema| column_def_text(c),
        ));
    }
    proof {
        assert(schema@.take(schema@.len() as int) =~= schema@);
    }
    let joined = join_strings(&defs, ", ");
    let mut s = String::new();
    s.append("CREATE TABLE `");
    s.append(table_name);
    s.append("` (");
    s.append(joined.as_str());
    s.append(")");
    proof {
        assert(s@ =~= create_table_text(table_name@, schema@));
    }
    s
}

/// Whether a column contributes a clause to the deferred constraint
/// statement: primary keys are created inline with the table, everything
/// else is deferred.
pub open spec fn emits_clause(c: ColumnSchema) -> bool {
    match c.constraints {
        Option::Some(con) => !(con matches Constraint::PrimaryKey),
        Option::None => false,
    }
}

/// The `ALTER TABLE` clause a column contributes.
pub open spec fn constraint_clause_text(c: ColumnSchema) -> Seq<char> {
    match c.constraints {
        Option::Some(con) => match con {
            Constraint::ForeignKey { referenced_table, referenced_column } => "ADD FOREIGN KEY(`"@
                + c.column_name@ + "`) REFERENCES `"@ + referenced_table@ + "`(`"@
                + referenced_column@ + "`) ON DELETE CASCADE"@,
            Constraint::Unique => "ADD UNIQUE(`"@ + c.column_name@ + "`)"@,
            Constraint::Check(clause) => "ADD CHECK ("@ + clause@ + ")"@,
            Constraint::Default(value) => "ADD DEFAULT "@ + value@,
            Constraint::PrimaryKey => Seq::empty(),
        },
        Option::None => Seq::empty(),
    }
}

/// The deferred clauses of a schema, in column order.
pub open spec fn constraint_clauses(cols: Seq<ColumnSchema>) -> Seq<Seq<char>>
    decreases cols.len(),
{
    if cols.len() == 0 {
        Seq::empty()
    } else {
        let rest = constraint_clauses(cols.drop_first());
        if emits_clause(cols[0]) {
            seq![constraint_clause_text(cols[0])] + rest
        } else {
            rest
        }
    }
}

/// Taking one more column extends the clause list by at most that column's
/// clause.
proof fn lemma_clauses_push(cols: Seq<ColumnSchema>, c: ColumnSchema)
    ensures
        constraint_clauses(cols.push(c)) == constraint_clauses(cols) + (if emits_clause(c) {
            seq![constraint_clause_text(c)]
        } else {
            Seq::<Seq<char>>::empty()
        }),
    decreases cols.len(),
{
    let tail: Seq<Seq<char>> = if emits_clause(c) {
        seq![constraint_clause_text(c)]
    } else {
        Seq::empty()
    };
    let p = cols.push(c);
    assert(p.len() == cols.len() + 1);
    if cols.len() == 0 {
        assert(p[0] == c);
        assert(p.drop_first() =~= Seq::<ColumnSchema>::empty());
        assert(constraint_clauses(p.drop_first()).len() == 0);
        if emits_clause(c) {
            assert(constraint_clauses(p) == seq![constraint_clause_text(p[0])]
                + constraint_clauses(p.drop_first()));
            assert(seq![constraint_clause_text(p[0])] + constraint_clauses(p.drop_first())
                =~= seq![constraint_clause_text(c)]);
            assert(constraint_clauses(cols) + tail =~= seq![constraint_clause_text(c)]);
        } else {
            assert(constraint_clauses(p) == constraint_clauses(p.drop_first()));
            assert(constraint_clauses(cols) + tail =~= constraint_clauses(p.drop_first()));
        }
    } else {
        assert(p[0] == cols[0]);
        assert(p.drop_first() =~= cols.drop_first().push(c));
        lemma_clauses_push(cols.drop_first(), c);
        assert(constraint_clauses(p.drop_first()) == constraint_clauses(cols.drop_first()) + tail);
        if emits_clause(cols[0]) {
            assert(constraint_clauses(p) == seq![constraint_clause_text(p[0])]
                + constraint_clauses(p.drop_first()));
            assert(constraint_clauses(cols) == seq![constraint_clause_text(cols[0])]
                + constraint_clauses(cols.drop_first()));
            assert(seq![constraint_clause_text(cols[0])] + (constraint_clauses(cols.drop_first())
                + tail) =~= (seq![constraint_clause_text(cols[0])] + constraint_clauses(
                cols.drop_first(),
            )) + tail);
        } else {
            assert(constraint_clauses(p) == constraint_clauses(p.drop_first()));
            assert(constraint_clauses(cols) == constraint_clauses(cols.drop_first()));
        }
    }
}

/// Renders the `ALTER TABLE` clause of one column; meaningful only when the
/// column emits a clause.
fn render_constraint_clause(column: &ColumnSchema) -> (r: String)
    ensures
        r@ == constraint_clause_text(*column),
{
    let mut s = String::new();
    match &column.constraints {
        Some(Constraint::ForeignKey { referenced_table, referenced_column }) => {
            s.append("ADD FOREIGN KEY(`");
            s.append(column.column_name.as_str());
            s.append("`) REFERENCES `");
            s.append(referenced_table.as_str());
            s.append("`(`");
            s.append(referenced_column.as_str());
            s.append("`) ON DELETE CASCADE");
        },
        Some(Constraint::Unique) => {
            s.append("ADD UNIQUE(`");
            s.append(column.column_name.as_str());
            s.append("`)");
        },
        Some(Constraint::Check(clause)) => {
            s.append("ADD CHECK (");
            s.append(clause.as_str());
            s.append(")");
        },
        Some(Constraint::Default(value)) => {
            s.append("ADD DEFAULT ");
            s.append(value.as_str());
        },
        Some(Constraint::PrimaryKey) => {},
        None => {},
    }
    proof {
        assert(s@ =~= constraint_clause_text(*column));
    }
    s
}

/// The deferred constraint statement for a table, absent when no column
/// defers a constraint.
pub fn build_create_constraints(table_name: &str, schema: &Vec<ColumnSchema>) -> (r: Option<
    String,
>)
    ensures
        r is None <==> constraint_clauses(schema@).len() == 0,
        r matches Some(q) ==> q@ == "SET FOREIGN_KEY_CHECKS=0; ALTER TABLE `"@ + table_name@
            + "` "@ + join_seqs(constraint_clauses(schema@), ", "@),
{
    let mut clauses: Vec<String> = Vec::new();
    let mut i: usize = 0;
    proof {
        assert(schema@.take(0) =~= Seq::<ColumnSchema>::empty());
        assert(clauses@.map_values(|s: String| s@) =~~= constraint_clauses(schema@.take(0)));
    }
    while i < schema.len()
        invariant
            i <= schema@.len(),
            clauses@.map_values(|s: String| s@) == constraint_clauses(schema@.take(i as int)),
        decreases schema@.len() - i,
    {
        let column = &schema[i];
        let emit = match &column.constraints {
            Some(Constraint::PrimaryKey) => false,
            Some(_) => true,
            None => false,
        };
        let ghost old_cv = clauses@.map_values(|s: String| s@);
        if emit {
            clauses.push(render_constraint_clause(column));
        }
        proof {
            assert(schema@.take(i + 1) =~= schema@.take(i as int).push(schema@[i as int]));
            lemma_clauses_push(schema@.take(i as int), schema@[i as int]);
            if emit {
                assert(clauses@.map_values(|s: String| s@) =~~= old_cv + seq![
                    constraint_clause_text(schema@[i as int]),
                ]);
            } else {
                assert(old_cv + Seq::<Seq<char>>::empty() =~~= old_cv);
            }
        }
        i = i + 1;
    }
    proof {
        assert(schema@.take(schema@.len() as int) =~= schema@);
    }
    if clauses.len() == 0 {
        return None;
    }
    let joined = join_strings(&clauses, ", ");
    let mut s = String::new();
    s.append("SET FOREIGN_KEY_CHECKS=0; ALTER TABLE `");
    s.append(table_name);
    s.append("` ");
    s.append(joined.as_str());
    proof {
        assert(s@ =~= "SET FOREIGN_KEY_CHECKS=0; ALTER TABLE `"@ + table_name@ + "` "@ + join_seqs(
            constraint_clauses(schema@),
            ", "@,
        ));
    }
    Some(s)
}

} // verus!
