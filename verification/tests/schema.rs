use geo_ingest::schema::{is_already_exists, schema_statements, schema_verdict, SqlFailure};

fn refusal(code: Option<&str>, message: &str) -> SqlFailure {
    SqlFailure { code: code.map(|c| c.to_string()), message: message.to_string() }
}

#[test]
fn schema_statements_create_extension_table_and_index() {
    let statements = schema_statements("regions");
    assert_eq!(statements.len(), 3);
    assert_eq!(statements[0], "CREATE EXTENSION IF NOT EXISTS postgis;");
    assert_eq!(
        statements[1],
        "CREATE TABLE IF NOT EXISTS regions (\n    id UUID PRIMARY KEY DEFAULT gen_random_uuid(),\n    name VARCHAR(512) NOT NULL UNIQUE,\n    properties JSONB NOT NULL,\n    geometry GEOMETRY,\n    created_at TIMESTAMPTZ DEFAULT NOW()\n);"
    );
    assert_eq!(
        statements[2],
        "CREATE INDEX regions_properties_idx ON regions USING GIN (properties);"
    );
}

#[test]
fn already_exists_codes_are_recognised() {
    assert!(is_already_exists("42P07"));
    assert!(is_already_exists("42710"));
    assert!(!is_already_exists("42501"));
    assert!(!is_already_exists("42p07"));
    assert!(!is_already_exists(""));
    assert!(!is_already_exists("42P070"));
}

#[test]
fn success_is_a_ready_table() {
    assert!(schema_verdict("regions", Ok(())).is_ok());
}

#[test]
fn losing_the_race_for_a_table_is_no_error() {
    let outcome = Err(refusal(Some("42P07"), "relation \"regions_properties_idx\" already exists"));
    assert!(schema_verdict("regions", outcome).is_ok());
    let outcome = Err(refusal(Some("42710"), "extension \"postgis\" already exists"));
    assert!(schema_verdict("regions", outcome).is_ok());
}

#[test]
fn both_racing_callers_find_the_table_ready() {
    let first = schema_verdict("regions", Ok(()));
    let second = schema_verdict(
        "regions",
        Err(refusal(Some("42P07"), "relation \"regions_properties_idx\" already exists")),
    );
    assert!(first.is_ok() && second.is_ok());
}

#[test]
fn insufficient_privilege_is_a_schema_error() {
    let error = schema_verdict(
        "regions",
        Err(refusal(Some("42501"), "permission denied for schema public")),
    )
    .unwrap_err();
    assert_eq!(error.table, "regions");
    assert_eq!(error.code.as_deref(), Some("42501"));
    assert_eq!(error.message, "permission denied for schema public");
}

#[test]
fn refusal_without_code_is_a_schema_error() {
    let error = schema_verdict("t", Err(refusal(None, "connection closed"))).unwrap_err();
    assert_eq!(error.table, "t");
    assert_eq!(error.code, None);
    assert_eq!(error.message, "connection closed");
}
