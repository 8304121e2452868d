//! The error taxonomy of a migration run. Fatal errors stop the run in
//! preflight; every other error is scoped to a single table and carries the
//! table name.

use vstd::prelude::*;
use vstd::string::*;
use crate::strings::{dec_str, push_dec_u128};

verus! {

/// Every failure a run can report.
#[derive(Debug, Clone)]
pub enum MigrationError {
    /// An engine could not be reached or failed to answer a query; fatal
    /// when raised before table work begins, otherwise scoped to the one
    /// table whose task met it. Carries what was being asked.
    ConnectionError(String),
    /// The configured packet budget exceeds what the destination allows;
    /// fatal, raised in preflight only.
    PacketSizeExceeded { configured: usize, allowed: usize },
    /// The source engine failed to report a table's schema.
    SchemaFetchError(String),
    /// The destination engine refused the statement creating a table.
    TableCreationError(String),
    /// A source column type is absent from the mapping table.
    MappingNotFound(String),
    /// The destination table already holds rows, so its data load was
    /// skipped; distinguishable from success with rows copied.
    TableAlreadyPopulated(String),
    /// One insert batch failed; carries the batch's byte size.
    BatchExecutionError { table: String, batch_size_bytes: usize },
    /// The deferred constraint pass failed for a table; never fatal.
    ConstraintCreationError(String),
}

impl MigrationError {
    /// The report text of this error.
    pub open spec fn message_spec(&self) -> Seq<char> {
        match *self {
            MigrationError::ConnectionError(detail) => "Connection failure: "@ + detail@,
            MigrationError::PacketSizeExceeded { configured, allowed } =>
                "Configured send packet size exceeds maximum allowed packet size"@,
            MigrationError::SchemaFetchError(table) => "Failed to get table schema for "@
                + table@,
            MigrationError::TableCreationError(table) => "Failed to create table "@ + table@,
            MigrationError::MappingNotFound(source_type) => "Mapping not found for data type: "@
                + source_type@,
            MigrationError::TableAlreadyPopulated(table) => "Rows already exists in table "@
                + table@,
            MigrationError::BatchExecutionError { table, batch_size_bytes } =>
                "Failed to execute transactional query batch of "@ + dec_str(
                batch_size_bytes as nat,
            ) + " bytes for table "@ + table@,
            MigrationError::ConstraintCreationError(table) =>
                "Error while creating constraints for table: "@ + table@,
        }
    }

    /// Renders the report text.
    pub fn message(&self) -> (r: String)
        ensures
            r@ == self.message_spec(),
    {
        let mut s = String::new();
        match self {
            MigrationError::ConnectionError(detail) => {
                s.append("Connection failure: ");
                s.append(detail.as_str());
            },
            MigrationError::PacketSizeExceeded { configured: _, allowed: _ } => {
                s.append("Configured send packet size exceeds maximum allowed packet size");
            },
            MigrationError::SchemaFetchError(table) => {
                s.append("Failed to get table schema for ");
                s.append(table.as_str());
            },
            MigrationError::TableCreationError(table) => {
                s.append("Failed to create table ");
                s.append(table.as_str());
            },
            MigrationError::MappingNotFound(source_type) => {
                s.append("Mapping not found for data type: ");
                s.append(source_type.as_str());
            },
            MigrationError::TableAlreadyPopulated(table) => {
                s.append("Rows already exists in table ");
                s.append(table.as_str());
            },
            MigrationError::BatchExecutionError { table, batch_size_bytes } => {
                s.append("Failed to execute transactional query batch of ");
                push_dec_u128(&mut s, *batch_size_bytes as u128);
                s.append(" bytes for table ");
                s.append(table.as_str());
            },
            MigrationError::ConstraintCreationError(table) => {
                s.append("Error while creating constraints for table: ");
                s.append(table.as_str());
            },
        }
        proof {
            assert(s@ =~= self.message_spec());
        }
        s
    }
}

} // verus!
