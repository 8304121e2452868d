//! Coordinator decisions that need no connection: the preflight packet-size
//! check, whitelist filtering and its missing-table warning list, table-name
//! formatting, the per-table load plan, and splitting a run's outcomes into
//! successes and errors.

use vstd::prelude::*;
use vstd::string::*;
use crate::error::MigrationError;
use crate::helpers::{ascii_lower_seq, ascii_lowercase, format_snake_case, snake_case};
use crate::schema::ColumnSchema;
use crate::strings::str_eq;

verus! {

/// What a migration run was asked to do.
#[derive(Debug, Clone)]
pub struct MigrationOptions {
    /// Drop existing destination tables instead of truncating them.
    pub drop: bool,
    /// Apply deferred constraints after all tables are created.
    pub constraints: bool,
    /// Snake-case destination table and column names.
    pub format_snake_case: bool,
    /// How many tables may migrate at once.
    pub max_concurrent_tasks: usize,
    /// The byte budget of one write statement.
    pub max_packet_bytes: usize,
    /// The tables to migrate.
    pub whitelisted_tables: Vec<String>,
}

/// What migrating one table produced: the destination name, the mapped
/// schema, and whether this run created the table rather than reusing a
/// pre-existing one.
#[derive(Debug)]
pub struct MigrationResult {
    pub table_name: String,
    pub schema: Vec<ColumnSchema>,
    pub created: bool,
}

impl MigrationResult {
    /// Records a finished table: `created` says the destination table did
    /// not exist before this run.
    pub fn new(table_name: String, schema: Vec<ColumnSchema>, table_existed: bool) -> (r:
        MigrationResult)
        ensures
            r.table_name == table_name,
            r.schema == schema,
            r.created == !table_existed,
    {
        MigrationResult { table_name, schema, created: !table_existed }
    }
}

/// The preflight gate: a configured packet budget above what the
/// destination allows fails the run before any table is touched.
pub fn check_packet_size(config_send_packet_size: usize, max_allowed_packet: usize) -> (r: Result<
    (),
    MigrationError,
>)
    ensures
        r is Ok <==> config_send_packet_size <= max_allowed_packet,
        r matches Err(e) ==> e matches MigrationError::PacketSizeExceeded { configured, allowed }
            && configured == config_send_packet_size && allowed == max_allowed_packet,
{
    if config_send_packet_size > max_allowed_packet {
        Err(
            MigrationError::PacketSizeExceeded {
                configured: config_send_packet_size,
                allowed: max_allowed_packet,
            },
        )
    } else {
        Ok(())
    }
}

/// Whether some table in `tables` is named `name`.
pub open spec fn contains_table_name(tables: Seq<String>, name: Seq<char>) -> bool {
    exists|i: int| 0 <= i < tables.len() && (#[trigger] tables[i])@ == name
}

/// Whether some table in `tables` is named `name`.
pub fn contains_table(tables: &Vec<String>, name: &str) -> (r: bool)
    ensures
        r == contains_table_name(tables@, name@),
{
    let mut i: usize = 0;
    while i < tables.len()
        invariant
            i <= tables@.len(),
            forall|j: int| 0 <= j < i ==> (#[trigger] tables@[j])@ != name@,
        decreases tables@.len() - i,
    {
        if str_eq(tables[i].as_str(), name) {
            return true;
        }
        i = i + 1;
    }
    false
}

/// The whitelisted names absent from the source's table list, in whitelist
/// order.
pub open spec fn missing_table_names(whitelist: Seq<String>, tables: Seq<String>) -> Seq<
    Seq<char>,
>
    decreases whitelist.len(),
{
    if whitelist.len() == 0 {
        Seq::empty()
    } else {
        let rest = missing_table_names(whitelist.drop_first(), tables);
        if contains_table_name(tables, whitelist[0]@) {
            rest
        } else {
            seq![whitelist[0]@] + rest
        }
    }
}

/// Checking one more whitelist entry appends at most that entry.
proof fn lemma_missing_push(whitelist: Seq<String>, tables: Seq<String>, w: String)
    ensures
        missing_table_names(whitelist.push(w), tables) == missing_table_names(whitelist, tables)
            + (if contains_table_name(tables, w@) {
            Seq::<Seq<char>>::empty()
        } else {
            seq![w@]
        }),
    decreases whitelist.len(),
{
    let tail: Seq<Seq<char>> = if contains_table_name(tables, w@) {
        Seq::empty()
    } else {
        seq![w@]
    };
    let p = whitelist.push(w);
    if whitelist.len() == 0 {
        assert(p[0] == w);
        assert(p.drop_first() =~= Seq::<String>::empty());
        assert(missing_table_names(p.drop_first(), tables).len() == 0);
        assert(missing_table_names(p, tables) =~~= missing_table_names(whitelist, tables) + tail);
    } else {
        assert(p[0] == whitelist[0]);
        assert(p.drop_first() =~= whitelist.drop_first().push(w));
        lemma_missing_push(whitelist.drop_first(), tables, w);
        assert(missing_table_names(p, tables) =~~= missing_table_names(whitelist, tables) + tail);
    }
}

/// The whitelisted tables the source does not report, to be warned about
/// (non-fatally) before filtering.
pub fn check_missing_tables(tables: &Vec<String>, whitelisted_tables: &Vec<String>) -> (r: Vec<
    String,
>)
    ensures
        r@.map_values(|s: String| s@) == missing_table_names(whitelisted_tables@, tables@),
{
    let mut missing: Vec<String> = Vec::new();
    let mut i: usize = 0;
    proof {
        assert(whitelisted_tables@.take(0) =~= Seq::<String>::empty());
        assert(missing@.map_values(|s: String| s@) =~~= missing_table_names(
            whitelisted_tables@.take(0),
            tables@,
        ));
    }
    while i < whitelisted_tables.len()
        invariant
            i <= whitelisted_tables@.len(),
            missing@.map_values(|s: String| s@) == missing_table_names(
                whitelisted_tables@.take(i as int),
                tables@,
            ),
        decreases whitelisted_tables@.len() - i,
    {
        let ghost old_mv = missing@.map_values(|s: String| s@);
        if !contains_table(tables, whitelisted_tables[i].as_str()) {
            missing.push(whitelisted_tables[i].clone());
        }
        proof {
            assert(whitelisted_tables@.take(i + 1) =~= whitelisted_tables@.take(i as int).push(
                whitelisted_tables@[i as int],
            ));
            lemma_missing_push(
                whitelisted_tables@.take(i as int),
                tables@,
                whitelisted_tables@[i as int],
            );
            if !contains_table_name(tables@, whitelisted_tables@[i as int]@) {
                assert(missing@.map_values(|s: String| s@) =~~= old_mv + seq![
                    whitelisted_tables@[i as int]@,
                ]);
            } else {
                assert(old_mv + Seq::<Seq<char>>::empty() =~~= old_mv);
            }
        }
        i = i + 1;
    }
    proof {
        assert(whitelisted_tables@.take(whitelisted_tables@.len() as int) =~= whitelisted_tables@);
    }
    missing
}

/// The table names kept by the whitelist filter, in source order.
pub open spec fn retained_table_names(tables: Seq<String>, whitelist: Seq<String>) -> Seq<
    Seq<char>,
>
    decreases tables.len(),
{
    if tables.len() == 0 {
        Seq::empty()
    } else {
        let rest = retained_table_names(tables.drop_first(), whitelist);
        if contains_table_name(whitelist, tables[0]@) {
            seq![tables[0]@] + rest
        } else {
            rest
        }
    }
}

/// Filtering one more table appends at most that table.
proof fn lemma_retained_push(tables: Seq<String>, whitelist: Seq<String>, t: String)
    ensures
        retained_table_names(tables.push(t), whitelist) == retained_table_names(tables, whitelist)
            + (if contains_table_name(whitelist, t@) {
            seq![t@]
        } else {
            Seq::<Seq<char>>::empty()
        }),
    decreases tables.len(),
{
    let tail: Seq<Seq<char>> = if contains_table_name(whitelist, t@) {
        seq![t@]
    } else {
        Seq::empty()
    };
    let p = tables.push(t);
    if tables.len() == 0 {
        assert(p[0] == t);
        assert(p.drop_first() =~= Seq::<String>::empty());
        assert(retained_table_names(p.drop_first(), whitelist).len() == 0);
        assert(retained_table_names(p, whitelist) =~~= retained_table_names(tables, whitelist)
            + tail);
    } else {
        assert(p[0] == tables[0]);
        assert(p.drop_first() =~= tables.drop_first().push(t));
        lemma_retained_push(tables.drop_first(), whitelist, t);
        assert(retained_table_names(p, whitelist) =~~= retained_table_names(tables, whitelist)
            + tail);
    }
}

/// Keeps only the whitelisted tables, in source order.
pub fn filter_whitelisted_tables(tables: &Vec<String>, whitelisted_tables: &Vec<String>) -> (r:
    Vec<String>)
    ensures
        r@.map_values(|s: String| s@) == retained_table_names(tables@, whitelisted_tables@),
{
    let mut kept: Vec<String> = Vec::new();
    let mut i: usize = 0;
    proof {
        assert(tables@.take(0) =~= Seq::<String>::empty());
        assert(kept@.map_values(|s: String| s@) =~~= retained_table_names(
            tables@.take(0),
            whitelisted_tables@,
        ));
    }
    while i < tables.len()
        invariant
            i <= tables@.len(),
            kept@.map_values(|s: String| s@) == retained_table_names(
                tables@.take(i as int),
                whitelisted_tables@,
            ),
        decreases tables@.len() - i,
    {
        let ghost old_kv = kept@.map_values(|s: String| s@);
        if contains_table(whitelisted_tables, tables[i].as_str()) {
            kept.push(tables[i].clone());
        }
        proof {
            assert(tables@.take(i + 1) =~= tables@.take(i as int).push(tables@[i as int]));
            lemma_retained_push(tables@.take(i as int), whitelisted_tables@, tables@[i as int]);
            if contains_table_name(whitelisted_tables@, tables@[i as int]@) {
                assert(kept@.map_values(|s: String| s@) =~~= old_kv + seq![tables@[i as int]@]);
            } else {
                assert(old_kv + Seq::<Seq<char>>::empty() =~~= old_kv);
            }
        }
        i = i + 1;
    }
    proof {
        assert(tables@.take(tables@.len() as int) =~= tables@);
    }
    kept
}

/// Destination table names: snake-cased when identifier formatting is on,
/// otherwise unchanged, in source order.
pub fn format_table_names(tables: &Vec<String>, format: bool) -> (r: Vec<String>)
    ensures
        r@.len() == tables@.len(),
        forall|i: int|
            0 <= i < tables@.len() ==> (#[trigger] r@[i])@ == (if format {
                snake_case(tables@[i]@)
            } else {
                tables@[i]@
            }),
{
    let mut out: Vec<String> = Vec::new();
    let mut i: usize = 0;
    while i < tables.len()
        invariant
            i <= tables@.len(),
            out@.len() == i,
            forall|j: int|
                0 <= j < i ==> (#[trigger] out@[j])@ == (if format {
                    snake_case(tables@[j]@)
                } else {
                    tables@[j]@
                }),
        decreases tables@.len() - i,
    {
        if format {
            out.push(format_snake_case(tables[i].as_str()));
        } else {
            out.push(tables[i].clone());
        }
        i = i + 1;
    }
    out
}

/// Whether some table in `tables` is named `name` up to ASCII letter case.
pub open spec fn contains_table_name_ci(tables: Seq<String>, name: Seq<char>) -> bool {
    exists|i: int|
        0 <= i < tables.len() && ascii_lower_seq((#[trigger] tables[i])@) == ascii_lower_seq(name)
}

/// Whether some table in `tables` is named `name` up to ASCII letter case.
pub fn contains_table_ci(tables: &Vec<String>, name: &str) -> (r: bool)
    ensures
        r == contains_table_name_ci(tables@, name@),
{
    let lowered_name = ascii_lowercase(name);
    let mut i: usize = 0;
    while i < tables.len()
        invariant
            lowered_name@ == ascii_lower_seq(name@),
            i <= tables@.len(),
            forall|j: int|
                0 <= j < i ==> ascii_lower_seq((#[trigger] tables@[j])@) != ascii_lower_seq(name@),
        decreases tables@.len() - i,
    {
        let lowered_entry = ascii_lowercase(tables[i].as_str());
        if crate::strings::str_eq(lowered_entry.as_str(), lowered_name.as_str()) {
            return true;
        }
        i = i + 1;
    }
    false
}

/// The destination tables that the reset statement must clear: those that
/// exist and are also wanted, compared without regard to ASCII letter case,
/// in destination order.
pub open spec fn reset_candidates(existing: Seq<String>, wanted: Seq<String>) -> Seq<Seq<char>>
    decreases existing.len(),
{
    if existing.len() == 0 {
        Seq::empty()
    } else {
        let rest = reset_candidates(existing.drop_first(), wanted);
        if contains_table_name_ci(wanted, existing[0]@) {
            seq![existing[0]@] + rest
        } else {
            rest
        }
    }
}

/// Considering one more existing table appends at most that table.
proof fn lemma_reset_push(existing: Seq<String>, wanted: Seq<String>, t: String)
    ensures
        reset_candidates(existing.push(t), wanted) == reset_candidates(existing, wanted) + (
        if contains_table_name_ci(wanted, t@) {
            seq![t@]
        } else {
            Seq::<Seq<char>>::empty()
        }),
    decreases existing.len(),
{
    let tail: Seq<Seq<char>> = if contains_table_name_ci(wanted, t@) {
        seq![t@]
    } else {
        Seq::empty()
    };
    let p = existing.push(t);
    if existing.len() == 0 {
        assert(p[0] == t);
        assert(p.drop_first() =~= Seq::<String>::empty());
        assert(reset_candidates(p.drop_first(), wanted).len() == 0);
        assert(reset_candidates(p, wanted) =~~= reset_candidates(existing, wanted) + tail);
    } else {
        assert(p[0] == existing[0]);
        assert(p.drop_first() =~= existing.drop_first().push(t));
        lemma_reset_push(existing.drop_first(), wanted, t);
        assert(reset_candidates(p, wanted) =~~= reset_candidates(existing, wanted) + tail);
    }
}

/// Keeps the destination tables that the run must clear before loading:
/// those both existing and wanted, matched without regard to ASCII letter
/// case.
pub fn filter_existing_tables(existing_tables: &Vec<String>, wanted: &Vec<String>) -> (r: Vec<
    String,
>)
    ensures
        r@.map_values(|s: String| s@) == reset_candidates(existing_tables@, wanted@),
{
    let mut kept: Vec<String> = Vec::new();
    let mut i: usize = 0;
    proof {
        assert(existing_tables@.take(0) =~= Seq::<String>::empty());
        assert(kept@.map_values(|s: String| s@) =~~= reset_candidates(
            existing_tables@.take(0),
            wanted@,
        ));
    }
    while i < existing_tables.len()
        invariant
            i <= existing_tables@.len(),
            kept@.map_values(|s: String| s@) == reset_candidates(
                existing_tables@.take(i as int),
                wanted@,
            ),
        decreases existing_tables@.len() - i,
    {
        let ghost old_kv = kept@.map_values(|s: String| s@);
        if contains_table_ci(wanted, existing_tables[i].as_str()) {
            kept.push(existing_tables[i].clone());
        }
        proof {
            assert(existing_tables@.take(i + 1) =~= existing_tables@.take(i as int).push(
                existing_tables@[i as int],
            ));
            lemma_reset_push(existing_tables@.take(i as int), wanted@, existing_tables@[i as int]);
            if contains_table_name_ci(wanted@, existing_tables@[i as int]@) {
                assert(kept@.map_values(|s: String| s@) =~~= old_kv + seq![
                    existing_tables@[i as int]@,
                ]);
            } else {
                assert(old_kv + Seq::<Seq<char>>::empty() =~~= old_kv);
            }
        }
        i = i + 1;
    }
    proof {
        assert(existing_tables@.take(existing_tables@.len() as int) =~= existing_tables@);
    }
    kept
}

/// How the loader treats one table.
#[derive(Debug, Clone, Copy)]
pub enum TablePlan {
    /// The destination table does not exist: create it, then load rows.
    CreateAndLoad,
    /// The destination table exists but is empty: load rows into it.
    LoadExisting,
}

/// Decides one table's fate from the destination's state. A destination
/// table that already holds rows is left untouched by the run: its load is
/// refused with `TableAlreadyPopulated`, a distinct, per-table outcome.
pub fn plan_table_migration(table_name: &str, table_exists: bool, row_count: i64) -> (r: Result<
    TablePlan,
    MigrationError,
>)
    ensures
        r is Ok <==> !(table_exists && row_count > 0),
        table_exists && row_count > 0 ==> (r matches Err(
            MigrationError::TableAlreadyPopulated(t),
        ) && t@ == table_name@),
        !table_exists ==> (r matches Ok(p) && p is CreateAndLoad),
        table_exists && row_count <= 0 ==> (r matches Ok(p) && p is LoadExisting),
{
    if table_exists {
        if row_count > 0 {
            Err(MigrationError::TableAlreadyPopulated(table_name.to_owned()))
        } else {
            Ok(TablePlan::LoadExisting)
        }
    } else {
        Ok(TablePlan::CreateAndLoad)
    }
}

/// The successes among a run's outcomes, in task order.
pub open spec fn ok_results(rs: Seq<Result<MigrationResult, MigrationError>>) -> Seq<
    MigrationResult,
>
    decreases rs.len(),
{
    if rs.len() == 0 {
        Seq::empty()
    } else {
        let rest = ok_results(rs.drop_first());
        match rs[0] {
            Result::Ok(m) => seq![m] + rest,
            Result::Err(_) => rest,
        }
    }
}

/// The errors among a run's outcomes, in task order.
pub open spec fn err_results(rs: Seq<Result<MigrationResult, MigrationError>>) -> Seq<
    MigrationError,
>
    decreases rs.len(),
{
    if rs.len() == 0 {
        Seq::empty()
    } else {
        let rest = err_results(rs.drop_first());
        match rs[0] {
            Result::Ok(_) => rest,
            Result::Err(e) => seq![e] + rest,
        }
    }
}

/// Taking one more outcome extends exactly one of the two splits.
proof fn lemma_results_push(
    rs: Seq<Result<MigrationResult, MigrationError>>,
    x: Result<MigrationResult, MigrationError>,
)
    ensures
        ok_results(rs.push(x)) == ok_results(rs) + (match x {
            Result::Ok(m) => seq![m],
            Result::Err(_) => Seq::<MigrationResult>::empty(),
        }),
        err_results(rs.push(x)) == err_results(rs) + (match x {
            Result::Ok(_) => Seq::<MigrationError>::empty(),
            Result::Err(e) => seq![e],
        }),
    decreases rs.len(),
{
    let p = rs.push(x);
    if rs.len() == 0 {
        assert(p[0] == x);
        assert(p.drop_first() =~= Seq::<Result<MigrationResult, MigrationError>>::empty());
        assert(ok_results(p.drop_first()).len() == 0);
        assert(err_results(p.drop_first()).len() == 0);
        assert(ok_results(p) =~= ok_results(rs) + (match x {
            Result::Ok(m) => seq![m],
            Result::Err(_) => Seq::<MigrationResult>::empty(),
        }));
        assert(err_results(p) =~= err_results(rs) + (match x {
            Result::Ok(_) => Seq::<MigrationError>::empty(),
            Result::Err(e) => seq![e],
        }));
    } else {
        assert(p[0] == rs[0]);
        assert(p.drop_first() =~= rs.drop_first().push(x));
        lemma_results_push(rs.drop_first(), x);
        assert(ok_results(p) =~= ok_results(rs) + (match x {
            Result::Ok(m) => seq![m],
            Result::Err(_) => Seq::<MigrationResult>::empty(),
        }));
        assert(err_results(p) =~= err_results(rs) + (match x {
            Result::Ok(_) => Seq::<MigrationError>::empty(),
            Result::Err(e) => seq![e],
        }));
    }
}

/// The results of tables this run created, in task order: only those get
/// the deferred constraint pass, since reused tables are left untouched.
pub open spec fn created_results(rs: Seq<MigrationResult>) -> Seq<MigrationResult>
    decreases rs.len(),
{
    if rs.len() == 0 {
        Seq::empty()
    } else {
        let rest = created_results(rs.drop_first());
        if rs[0].created {
            seq![rs[0]] + rest
        } else {
            rest
        }
    }
}

/// Considering one more result appends at most that result.
proof fn lemma_created_push(rs: Seq<MigrationResult>, x: MigrationResult)
    ensures
        created_results(rs.push(x)) == created_results(rs) + (if x.created {
            seq![x]
        } else {
            Seq::<MigrationResult>::empty()
        }),
    decreases rs.len(),
{
    let tail: Seq<MigrationResult> = if x.created {
        seq![x]
    } else {
        Seq::empty()
    };
    let p = rs.push(x);
    if rs.len() == 0 {
        assert(p[0] == x);
        assert(p.drop_first() =~= Seq::<MigrationResult>::empty());
        assert(created_results(p.drop_first()).len() == 0);
        assert(created_results(p) =~= created_results(rs) + tail);
    } else {
        assert(p[0] == rs[0]);
        assert(p.drop_first() =~= rs.drop_first().push(x));
        lemma_created_push(rs.drop_first(), x);
        assert(created_results(p) =~= created_results(rs) + tail);
    }
}

/// Keeps the results of tables this run created, in task order.
pub fn filter_created_results(results: Vec<MigrationResult>) -> (r: Vec<MigrationResult>)
    ensures
        r@ == created_results(results@),
{
    let ghost orig = results@;
    let mut rest = results;
    let mut kept: Vec<MigrationResult> = Vec::new();
    proof {
        assert(orig.take(0) =~= Seq::<MigrationResult>::empty());
        assert(kept@ =~= created_results(orig.take(0)));
        assert(rest@ =~= orig.skip(0));
    }
    while rest.len() > 0
        invariant
            rest@.len() <= orig.len(),
            rest@ == orig.skip(orig.len() - rest@.len()),
            kept@ == created_results(orig.take(orig.len() - rest@.len())),
        decreases rest@.len(),
    {
        let ghost k = orig.len() - rest@.len();
        let item = rest.remove(0);
        proof {
            assert(item == orig[k as int]);
            assert(rest@ =~= orig.skip(k as int + 1));
            assert(orig.take(k as int + 1) =~= orig.take(k as int).push(orig[k as int]));
            lemma_created_push(orig.take(k as int), orig[k as int]);
        }
        let ghost kv = kept@;
        if item.created {
            kept.push(item);
            proof {
                assert(kept@ =~= kv + seq![orig[k as int]]);
            }
        } else {
            proof {
                assert(kv + Seq::<MigrationResult>::empty() =~= kv);
            }
        }
    }
    proof {
        assert(orig.take(orig.len() as int) =~= orig);
    }
    kept
}

/// Splits a run's outcomes into the successful results and the captured
/// errors, both in task order; nothing is dropped.
pub fn process_migration_results(results: Vec<Result<MigrationResult, MigrationError>>) -> (r: (
    Vec<MigrationResult>,
    Vec<MigrationError>,
))
    ensures
        r.0@ == ok_results(results@),
        r.1@ == err_results(results@),
{
    let ghost orig = results@;
    let mut rest = results;
    let mut okays: Vec<MigrationResult> = Vec::new();
    let mut errors: Vec<MigrationError> = Vec::new();
    proof {
        assert(orig.take(0) =~= Seq::<Result<MigrationResult, MigrationError>>::empty());
        assert(okays@ =~= ok_results(orig.take(0)));
        assert(errors@ =~= err_results(orig.take(0)));
        assert(rest@ =~= orig.skip(0));
    }
    while rest.len() > 0
        invariant
            rest@.len() <= orig.len(),
            rest@ == orig.skip(orig.len() - rest@.len()),
            okays@ == ok_results(orig.take(orig.len() - rest@.len())),
            errors@ == err_results(orig.take(orig.len() - rest@.len())),
        decreases rest@.len(),
    {
        let ghost k = orig.len() - rest@.len();
        let item = rest.remove(0);
        proof {
            assert(item == orig[k as int]);
            assert(rest@ =~= orig.skip(k as int + 1));
            assert(orig.take(k as int + 1) =~= orig.take(k as int).push(orig[k as int]));
            lemma_results_push(orig.take(k as int), orig[k as int]);
        }
        match item {
            Ok(m) => {
                let ghost ov = okays@;
                okays.push(m);
                proof {
                    assert(okays@ =~= ov + seq![m]);
                    assert(errors@ + Seq::<MigrationError>::empty() =~= errors@);
                }
            },
            Err(e) => {
                let ghost ev = errors@;
                errors.push(e);
                proof {
                    assert(errors@ =~= ev + seq![e]);
                    assert(okays@ + Seq::<MigrationResult>::empty() =~= okays@);
                }
            },
        }
    }
    proof {
        assert(orig.take(orig.len() as int) =~= orig);
    }
    (okays, errors)
}

} // verus!
