//! The schema mapper: translates a source column schema list into a
//! destination-compatible list of equal length and order, using the mapping
//! table, and snake-cases identifiers when asked to.

use vstd::prelude::*;
use vstd::string::*;
use crate::error::MigrationError;
use crate::helpers::{format_snake_case, snake_case};
use crate::mappings::{Mapping, Mappings};
use crate::schema::{ColumnSchema, Constraint};

verus! {

/// The fallback length taken from the mapping when the source length is
/// absent or out of range.
pub open spec fn fallback_length(m: Mapping) -> Option<i32> {
    match m.max_characters_length {
        Option::Some(v) => Option::Some(v as i32),
        Option::None => Option::None,
    }
}

/// The destination character length: a `-1` sentinel becomes `65535`, a
/// value in `[1, 65535]` is kept, anything else falls back to the mapping's
/// own maximum; all cleared when the destination type takes no parameters.
pub open spec fn mapped_length(c: ColumnSchema, m: Mapping) -> Option<i32> {
    if !m.type_parameters {
        Option::None
    } else {
        match c.character_maximum_length {
            Option::Some(len) => if len == -1 {
                Option::Some(65535)
            } else if 1 <= len && len <= 65535 {
                Option::Some(len)
            } else {
                fallback_length(m)
            },
            Option::None => fallback_length(m),
        }
    }
}

/// The destination precision: the source value, else the mapping default;
/// cleared when the destination type takes no parameters.
pub open spec fn mapped_precision(c: ColumnSchema, m: Mapping) -> Option<u8> {
    if !m.type_parameters {
        Option::None
    } else {
        match c.numeric_precision {
            Option::Some(p) => Option::Some(p),
            Option::None => m.numeric_precision,
        }
    }
}

/// The destination scale: a source scale of exactly zero clears it whatever
/// the mapping default says; otherwise the source value, else the mapping
/// default; cleared when the destination type takes no parameters.
pub open spec fn mapped_scale(c: ColumnSchema, m: Mapping) -> Option<i32> {
    if !m.type_parameters {
        Option::None
    } else if c.numeric_scale == Option::Some(0i32) {
        Option::None
    } else {
        match c.numeric_scale {
            Option::Some(sc) => Option::Some(sc),
            Option::None => match m.numeric_scale {
                Option::Some(v) => Option::Some(v as i32),
                Option::None => Option::None,
            },
        }
    }
}

/// The constraint carried over: a foreign key's referenced table and column
/// are snake-cased when identifier formatting is on, every other constraint
/// passes through unchanged.
pub open spec fn constraint_mapped(
    c: Option<Constraint>,
    format: bool,
    r: Option<Constraint>,
) -> bool {
    match c {
        Option::None => r is None,
        Option::Some(con) => match con {
            Constraint::ForeignKey { referenced_table, referenced_column } => {
                if format {
                    &&& r matches Option::Some(
                        Constraint::ForeignKey { referenced_table: t2, referenced_column: c2 },
                    )
                    &&& t2@ == snake_case(referenced_table@)
                    &&& c2@ == snake_case(referenced_column@)
                } else {
                    r == Option::Some(con)
                }
            },
            _ => r == Option::Some(con),
        },
    }
}

/// How one destination column must relate to its source column and mapping.
pub open spec fn column_mapped(c: ColumnSchema, m: Mapping, format: bool, r: ColumnSchema) -> bool {
    &&& r.column_name@ == (if format {
        snake_case(c.column_name@)
    } else {
        c.column_name@
    })
    &&& r.data_type@ == m.to_type@
    &&& r.character_maximum_length == mapped_length(c, m)
    &&& r.numeric_precision == mapped_precision(c, m)
    &&& r.numeric_scale == mapped_scale(c, m)
    &&& r.is_nullable == c.is_nullable
    &&& constraint_mapped(c.constraints, format, r.constraints)
}

/// A structural copy of a constraint.
fn clone_constraint(c: &Constraint) -> (r: Constraint)
    ensures
        r == *c,
{
    match c {
        Constraint::PrimaryKey => Constraint::PrimaryKey,
        Constraint::ForeignKey { referenced_table, referenced_column } => Constraint::ForeignKey {
            referenced_table: referenced_table.clone(),
            referenced_column: referenced_column.clone(),
        },
        Constraint::Unique => Constraint::Unique,
        Constraint::Check(clause) => Constraint::Check(clause.clone()),
        Constraint::Default(value) => Constraint::Default(value.clone()),
    }
}

pub struct TableSchemaMapper;

impl TableSchemaMapper {
    /// Maps every source column through the mapping table, keeping order and
    /// count; a source type absent from the table fails the whole schema
    /// with `MappingNotFound`, a per-table recoverable error.
    pub fn map_schema(mappings: &Mappings, table_schema: &Vec<ColumnSchema>, format: bool) -> (r:
        Result<Vec<ColumnSchema>, MigrationError>)
        ensures
            r is Ok <==> (forall|i: int|
                0 <= i < table_schema@.len() ==> (#[trigger] mappings.spec_get(
                    table_schema@[i].data_type@,
                )) is Some),
            r matches Ok(out) ==> out@.len() == table_schema@.len() && (forall|i: int|
                0 <= i < table_schema@.len() ==> column_mapped(
                    table_schema@[i],
                    mappings.spec_get(table_schema@[i].data_type@).unwrap(),
                    format,
                    #[trigger] out@[i],
                )),
            r matches Err(e) ==> e matches MigrationError::MappingNotFound(source_type)
                && (exists|i: int|
                {
                    &&& 0 <= i < table_schema@.len()
                    &&& mappings.spec_get(#[trigger] table_schema@[i].data_type@) is None
                    &&& source_type@ == table_schema@[i].data_type@
                }),
    {
        let mut out: Vec<ColumnSchema> = Vec::new();
        let n = table_schema.len();
        let mut i: usize = 0;
        while i < n
            invariant
                n == table_schema@.len(),
                i <= n,
                out@.len() == i,
                forall|j: int|
                    0 <= j < i ==> (#[trigger] mappings.spec_get(
                        table_schema@[j].data_type@,
                    )) is Some,
                forall|j: int|
                    0 <= j < i ==> column_mapped(
                        table_schema@[j],
                        mappings.spec_get(table_schema@[j].data_type@).unwrap(),
                        format,
                        #[trigger] out@[j],
                    ),
            decreases n - i,
        {
            let column = &table_schema[i];
            let mapping = match mappings.get(column.data_type.as_str()) {
                Some(m) => m,
                None => {
                    proof {
                        assert(mappings.spec_get(table_schema@[i as int].data_type@) is None);
                    }
                    return Err(MigrationError::MappingNotFound(column.data_type.clone()));
                },
            };
            let new_column_name = if format {
                format_snake_case(column.column_name.as_str())
            } else {
                column.column_name.clone()
            };
            let new_data_type = mapping.to_type.clone();
            let updated_constraints: Option<Constraint> = match &column.constraints {
                Some(con) => match con {
                    Constraint::ForeignKey { referenced_table, referenced_column } => {
                        if format {
                            Some(
                                Constraint::ForeignKey {
                                    referenced_table: format_snake_case(referenced_table.as_str()),
                                    referenced_column: format_snake_case(
                                        referenced_column.as_str(),
                                    ),
                                },
                            )
                        } else {
                            Some(clone_constraint(con))
                        }
                    },
                    _ => Some(clone_constraint(con)),
                },
                None => None,
            };
            let new_length: Option<i32> = if !mapping.type_parameters {
                None
            } else {
                let from_source: Option<i32> = match column.character_maximum_length {
                    Some(len) => {
                        if len == -1 {
                            Some(65535)
                        } else if 1 <= len && len <= 65535 {
                            Some(len)
                        } else {
                            None
                        }
                    },
                    None => None,
                };
                match from_source {
                    Some(v) => Some(v),
                    None => match mapping.max_characters_length {
                        Some(v) => Some(v as i32),
                        None => None,
                    },
                }
            };
            let new_precision: Option<u8> = if !mapping.type_parameters {
                None
            } else {
                match column.numeric_precision {
                    Some(p) => Some(p),
                    None => mapping.numeric_precision,
                }
            };
            let new_scale: Option<i32> = if !mapping.type_parameters {
                None
            } else {
                match column.numeric_scale {
                    Some(sc) => if sc == 0 {
                        None
                    } else {
                        Some(sc)
                    },
                    None => match mapping.numeric_scale {
                        Some(v) => Some(v as i32),
                        None => None,
                    },
                }
            };
            let mapped = ColumnSchema {
                column_name: new_column_name,
                data_type: new_data_type,
                character_maximum_length: new_length,
                numeric_precision: new_precision,
                numeric_scale: new_scale,
                is_nullable: column.is_nullable,
                constraints: updated_constraints,
            };
            out.push(mapped);
            i = i + 1;
        }
        Ok(out)
    }
}

} // verus!
