//! The destination table: the statements that create it, and what to make
//! of the store's answer.
//!
//! Several jobs may ask for the same table at once. The one that comes
//! second is told that the table, or its index, already exists: that answer
//! is what was asked for, and is no failure. Any other refusal is one.

use vstd::prelude::*;
use vstd::string::StringExecFns;
use crate::text::same_text;

verus! {

/// A refusal of a statement by the store.
#[derive(Debug, Clone)]
pub struct SqlFailure {
    /// The five-character state code, where the store gave one.
    pub code: Option<String>,
    /// The store's own words.
    pub message: String,
}

/// A destination table that could not be prepared.
#[derive(Debug, Clone)]
pub struct SchemaError {
    pub table: String,
    pub code: Option<String>,
    pub message: String,
}

/// The model of a schema error.
pub struct SchemaFault {
    pub table: Seq<char>,
    pub code: Option<String>,
    pub message: String,
}

impl View for SchemaError {
    type V = SchemaFault;

    open spec fn view(&self) -> SchemaFault {
        SchemaFault { table: self.table@, code: self.code, message: self.message }
    }
}

/// The error that a refusal is for a table.
pub open spec fn refusal(table: Seq<char>, failure: SqlFailure) -> SchemaFault {
    SchemaFault { table, code: failure.code, message: failure.message }
}

/// The statement that makes the spatial types available.
pub open spec fn extension_statement_text() -> Seq<char> {
    "CREATE EXTENSION IF NOT EXISTS postgis;"@
}

/// The statement that creates a table with an identity, a unique name, the
/// properties, the geometry and the time of creation.
pub open spec fn table_statement_text(table: Seq<char>) -> Seq<char> {
    "CREATE TABLE IF NOT EXISTS "@ + table
        + " (\n    id UUID PRIMARY KEY DEFAULT gen_random_uuid(),\n    name VARCHAR(512) NOT NULL UNIQUE,\n    properties JSONB NOT NULL,\n    geometry GEOMETRY,\n    created_at TIMESTAMPTZ DEFAULT NOW()\n);"@
}

/// The statement that creates the index over the properties.
pub open spec fn index_statement_text(table: Seq<char>) -> Seq<char> {
    "CREATE INDEX "@ + table + "_properties_idx ON "@ + table + " USING GIN (properties);"@
}

/// The statements that prepare a table, in the order in which they run.
pub open spec fn schema_statement_texts(table: Seq<char>) -> Seq<Seq<char>> {
    seq![extension_statement_text(), table_statement_text(table), index_statement_text(table)]
}

/// The state code of "a table or index of that name already exists".
pub open spec fn duplicate_relation_code() -> Seq<char> {
    "42P07"@
}

/// The state code of "an object of that name already exists".
pub open spec fn duplicate_object_code() -> Seq<char> {
    "42710"@
}

/// Whether a state code says that what was to be created already exists.
pub open spec fn already_exists(code: Seq<char>) -> bool {
    code == duplicate_relation_code() || code == duplicate_object_code()
}

/// Whether a refusal is the answer given to the second of two callers that
/// create the same table.
pub open spec fn is_benign(failure: SqlFailure) -> bool {
    failure.code matches Some(code) && already_exists(code@)
}

/// The statements that prepare the destination table: the spatial
/// extension, the table, and the index over its properties.
pub fn schema_statements(table: &str) -> (statements: Vec<String>)
    ensures
        crate::text::texts(statements@) == schema_statement_texts(table@),
{
    let mut create = String::from_str("CREATE TABLE IF NOT EXISTS ");
    create.append(table);
    create.append(
        " (\n    id UUID PRIMARY KEY DEFAULT gen_random_uuid(),\n    name VARCHAR(512) NOT NULL UNIQUE,\n    properties JSONB NOT NULL,\n    geometry GEOMETRY,\n    created_at TIMESTAMPTZ DEFAULT NOW()\n);",
    );
    let mut index = String::from_str("CREATE INDEX ");
    index.append(table);
    index.append("_properties_idx ON ");
    index.append(table);
    index.append(" USING GIN (properties);");
    let mut statements: Vec<String> = Vec::new();
    statements.push(String::from_str("CREATE EXTENSION IF NOT EXISTS postgis;"));
    statements.push(create);
    statements.push(index);
    assert(crate::text::texts(statements@) =~= schema_statement_texts(table@));
    statements
}

/// Whether a state code says that what was to be created already exists.
pub fn is_already_exists(code: &str) -> (b: bool)
    ensures
        b == already_exists(code@),
{
    same_text(code, "42P07") || same_text(code, "42710")
}

/// What the store's answer to the schema statements means for a table.
///
/// The table is ready where the statements ran, and where they were refused
/// because the table or its index already exists. Any other refusal is an
/// error that names the table and carries the store's code and words.
pub fn schema_verdict(table: &str, outcome: Result<(), SqlFailure>) -> (res: Result<
    (),
    SchemaError,
>)
    ensures
        match res {
            Ok(_) => outcome matches Err(failure) ==> is_benign(failure),
            Err(e) => {
                &&& outcome matches Err(failure)
                &&& !is_benign(failure)
                &&& e@ == refusal(table@, failure)
            },
        },
{
    match outcome {
        Ok(_) => Ok(()),
        Err(failure) => {
            let benign = match &failure.code {
                Some(code) => is_already_exists(code.as_str()),
                None => false,
            };
            if benign {
                Ok(())
            } else {
                Err(
                    SchemaError {
                        table: String::from_str(table),
                        code: failure.code,
                        message: failure.message,
                    },
                )
            }
        },
    }
}

} // verus!
