//! Column schema model: the per-column constraint descriptor and its parser,
//! and the column record the mapper and query builders work on.

use vstd::prelude::*;
use vstd::string::*;
use crate::helpers::{ascii_lower_seq, ascii_lowercase};
use crate::parse::{
    seq_starts_with, split_chars, split_on, starts_with_lit, strip_prefix_rec,
    strip_prefix_repeated, subchars, trim_blank, trim_chars,
};
use crate::strings::{chars_to_string, str_eq, str_to_chars};

verus! {

/// The single constraint descriptor a source column can carry.
#[derive(Debug, Clone)]
pub enum Constraint {
    PrimaryKey,
    ForeignKey { referenced_table: String, referenced_column: String },
    Unique,
    /// Holds the check clause text.
    Check(String),
    /// Holds the default value text.
    Default(String),
}

/// One column of a table schema, as reported by the source engine or as
/// produced by the type mapper.
#[derive(Debug, Clone)]
pub struct ColumnSchema {
    pub column_name: String,
    pub data_type: String,
    pub character_maximum_length: Option<i32>,
    pub numeric_precision: Option<u8>,
    pub numeric_scale: Option<i32>,
    pub is_nullable: bool,
    pub constraints: Option<Constraint>,
}

/// The check expression inside a descriptor: the source metadata query
/// emits `CHECK (<clause>)`, so the text between the keyword's parenthesis
/// pair is stored bare; a descriptor without that exact frame keeps what
/// follows the keyword, trimmed.
pub open spec fn check_clause_of(s: Seq<char>) -> Seq<char> {
    if s.len() >= 8 && seq_starts_with(s, "CHECK ("@) && s.last() == ')' {
        s.subrange(7, s.len() - 1)
    } else {
        trim_chars(s.skip(5))
    }
}

/// What parsing the descriptor text `s` must yield: the first matching
/// descriptor kind decides, a foreign key needs exactly three comma-separated
/// fields, and unrecognized text means no constraint.
pub open spec fn constraint_parsed(s: Seq<char>, r: Result<Option<Constraint>, ()>) -> bool {
    if seq_starts_with(s, "PRIMARY KEY"@) {
        r == Ok::<Option<Constraint>, ()>(Option::Some(Constraint::PrimaryKey))
    } else if seq_starts_with(s, "FOREIGN KEY"@) {
        if split_chars(s, ',').len() == 3 {
            &&& r matches Ok(Option::Some(
                Constraint::ForeignKey { referenced_table, referenced_column },
            ))
            &&& referenced_table@ == trim_chars(split_chars(s, ',')[1])
            &&& referenced_column@ == trim_chars(split_chars(s, ',')[2])
        } else {
            r is Err
        }
    } else if s == "UNIQUE"@ {
        r == Ok::<Option<Constraint>, ()>(Option::Some(Constraint::Unique))
    } else if seq_starts_with(s, "CHECK"@) {
        &&& r matches Ok(Option::Some(Constraint::Check(clause)))
        &&& clause@ == check_clause_of(s)
    } else if seq_starts_with(s, "DEFAULT"@) {
        &&& r matches Ok(Option::Some(Constraint::Default(value)))
        &&& value@ == strip_prefix_rec(s, "DEFAULT "@)
    } else {
        r == Ok::<Option<Constraint>, ()>(Option::None)
    }
}

impl Constraint {
    /// Parses the single descriptor string the source metadata query emits
    /// for a column; a foreign key descriptor with the wrong field count is
    /// a hard parse error.
    pub fn from_str(s: String) -> (r: Result<Option<Constraint>, ()>)
        ensures
            constraint_parsed(s@, r),
    {
        let chars = str_to_chars(s.as_str());
        if starts_with_lit(&chars, "PRIMARY KEY") {
            Ok(Some(Constraint::PrimaryKey))
        } else if starts_with_lit(&chars, "FOREIGN KEY") {
            let parts = split_on(&chars, ',');
            if parts.len() == 3 {
                proof {
                    assert(parts@.map_values(|p: Vec<char>| p@)[1] == parts@[1]@);
                    assert(parts@.map_values(|p: Vec<char>| p@)[2] == parts@[2]@);
                }
                let referenced_table = chars_to_string(&trim_blank(&parts[1]));
                let referenced_column = chars_to_string(&trim_blank(&parts[2]));
                Ok(Some(Constraint::ForeignKey { referenced_table, referenced_column }))
            } else {
                Err(())
            }
        } else if str_eq(s.as_str(), "UNIQUE") {
            Ok(Some(Constraint::Unique))
        } else if starts_with_lit(&chars, "CHECK") {
            proof {
                reveal_strlit("CHECK");
                reveal_strlit("CHECK (");
            }
            let n = chars.len();
            let clause_chars = if n >= 8 && starts_with_lit(&chars, "CHECK (") && chars[n - 1]
                == ')' {
                subchars(&chars, 7, n - 1)
            } else {
                proof {
                    assert(chars@.subrange(5, n as int) =~= chars@.skip(5));
                }
                trim_blank(&subchars(&chars, 5, n))
            };
            let clause = chars_to_string(&clause_chars);
            Ok(Some(Constraint::Check(clause)))
        } else if starts_with_lit(&chars, "DEFAULT") {
            proof {
                reveal_strlit("DEFAULT ");
            }
            let value = chars_to_string(&strip_prefix_repeated(&chars, "DEFAULT "));
            Ok(Some(Constraint::Default(value)))
        } else {
            Ok(None)
        }
    }
}

/// Reads the source engine's yes/no nullability marker, in any letter case.
/// Any other text is left out of the domain, as the caller treats it as a
/// malformed row.
pub fn parse_bool_from_string(s: String) -> (r: bool)
    requires
        ascii_lower_seq(s@) == "yes"@ || ascii_lower_seq(s@) == "no"@,
    ensures
        r == (ascii_lower_seq(s@) == "yes"@),
{
    let lowered = ascii_lowercase(s.as_str());
    str_eq(lowered.as_str(), "yes")
}

} // verus!
