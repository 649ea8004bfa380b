use geo_ingest::batch::Batch;
use geo_ingest::ingest::{
    choose_table_name, custom_unwrap_or, from_upload_error, into_features, plan_jobs,
    process_file, BatchAction, Document, IngestError, IngestJob, IngestTarget, DEFAULT_POOL_SIZE,
};
use geo_ingest::feature::Feature;
use geo_ingest::geometry::Geometry;
use geo_ingest::queries::PostgresQueriesWrite;
use geo_ingest::schema::SqlFailure;
use geo_ingest::upload::{Phase, UploadError};

fn job(path: &str, table: &str) -> IngestJob {
    IngestJob { path: path.to_string(), target: IngestTarget { table: table.to_string() } }
}

fn jobs_into(table: &str, paths: &[&str]) -> Vec<IngestJob> {
    paths.iter().map(|p| job(p, table)).collect()
}

// Answers every schema statement with success; gives the statements that
// were asked for and the first action that is no schema statement.
fn prepare(batch: &mut Batch) -> (Vec<(String, String)>, BatchAction) {
    let mut steps = Vec::new();
    loop {
        match batch.next_action() {
            BatchAction::Execute { table, statement } => {
                steps.push((table, statement));
                assert!(batch.statement_checked(Ok(())));
            }
            other => return (steps, other),
        }
    }
}

fn expect_start(action: BatchAction) -> (usize, String, String) {
    match action {
        BatchAction::Start { job, path, table } => (job, path, table),
        other => panic!("expected a start, got {:?}", other),
    }
}

#[test]
fn default_pool_size_is_sixteen() {
    assert_eq!(DEFAULT_POOL_SIZE, 16);
}

#[test]
fn one_good_and_one_malformed_file() {
    let mut batch = Batch::new(jobs_into("geo", &["/in/good.geojson", "/in/bad.geojson"]), 16);
    let (steps, first) = prepare(&mut batch);
    assert_eq!(steps.len(), 3);
    assert!(steps.iter().all(|(table, _)| table == "geo"));
    assert_eq!(
        expect_start(first),
        (0, "/in/good.geojson".to_string(), "geo".to_string())
    );
    assert_eq!(
        expect_start(batch.next_action()),
        (1, "/in/bad.geojson".to_string(), "geo".to_string())
    );
    assert_eq!(batch.running(), 2);
    assert!(matches!(batch.next_action(), BatchAction::Wait));
    assert!(batch.job_finished(1, Err(IngestError::Parse("expected value at line 1".to_string()))));
    assert!(batch.job_finished(0, Ok(3)));
    assert_eq!(batch.running(), 0);
    assert!(matches!(batch.next_action(), BatchAction::Finish));
    let report = batch.outcome().unwrap_err();
    assert!(report.schema.is_none());
    assert_eq!(report.rejected.len(), 1);
    assert_eq!(report.rejected[0].path, "/in/bad.geojson");
    assert_eq!(report.rejected[0].job, 1);
    assert!(matches!(report.rejected[0].cause, IngestError::Parse(_)));
    assert_eq!(report.loaded.len(), 1);
    assert_eq!(report.loaded[0].path, "/in/good.geojson");
    assert_eq!(report.loaded[0].rows, 3);
    assert!(report.unfinished.is_empty());
}

#[test]
fn every_file_loaded_is_overall_success() {
    let mut batch = Batch::new(jobs_into("geo", &["a", "b"]), 16);
    let (_, first) = prepare(&mut batch);
    expect_start(first);
    expect_start(batch.next_action());
    assert!(batch.job_finished(0, Ok(10)));
    assert!(batch.job_finished(1, Ok(0)));
    assert!(matches!(batch.next_action(), BatchAction::Finish));
    let loaded = batch.outcome().unwrap();
    assert_eq!(loaded.len(), 2);
    assert_eq!((loaded[0].job, loaded[0].path.as_str(), loaded[0].rows), (0, "a", 10));
    assert_eq!((loaded[1].job, loaded[1].path.as_str(), loaded[1].rows), (1, "b", 0));
}

#[test]
fn two_jobs_for_a_table_that_does_not_exist_prepare_it_once() {
    let mut batch = Batch::new(jobs_into("fresh", &["a", "b"]), 16);
    assert!(matches!(batch.next_action(), BatchAction::Execute { .. }));
    // Asking again while the answer is owed does not ask the store again.
    assert!(matches!(batch.next_action(), BatchAction::Wait));
    assert!(batch.statement_checked(Ok(())));
    let (steps, first) = prepare(&mut batch);
    assert_eq!(steps.len(), 2);
    assert!(matches!(first, BatchAction::Start { job: 0, .. }));
    assert!(matches!(batch.next_action(), BatchAction::Start { job: 1, .. }));
    assert!(batch.job_finished(0, Ok(1)));
    assert!(batch.job_finished(1, Ok(1)));
    assert!(batch.outcome().is_ok());
}

#[test]
fn table_that_already_exists_lets_the_batch_go_on() {
    let mut batch = Batch::new(jobs_into("geo", &["a"]), 16);
    let mut asked = Vec::new();
    for _ in 0..3 {
        match batch.next_action() {
            BatchAction::Execute { statement, .. } => asked.push(statement),
            other => panic!("expected a statement, got {:?}", other),
        }
        let lost_race = SqlFailure {
            code: Some("42P07".to_string()),
            message: "relation \"geo_properties_idx\" already exists".to_string(),
        };
        assert!(batch.statement_checked(Err(lost_race)));
    }
    assert_eq!(asked, geo_ingest::schema::schema_statements("geo"));
    assert!(matches!(batch.next_action(), BatchAction::Start { job: 0, .. }));
    assert!(batch.job_finished(0, Ok(2)));
    assert!(batch.outcome().is_ok());
}

#[test]
fn schema_error_ends_the_batch_before_any_job() {
    let mut batch = Batch::new(jobs_into("geo", &["a", "b"]), 16);
    batch.next_action();
    assert!(batch.statement_checked(Ok(())));
    batch.next_action();
    let denied = SqlFailure {
        code: Some("42501".to_string()),
        message: "permission denied".to_string(),
    };
    assert!(batch.statement_checked(Err(denied)));
    assert!(matches!(batch.next_action(), BatchAction::Finish));
    assert_eq!(batch.running(), 0);
    assert!(!batch.job_finished(0, Ok(1)));
    let report = batch.outcome().unwrap_err();
    let schema = report.schema.expect("the schema error is reported");
    assert_eq!(schema.table, "geo");
    assert_eq!(schema.code.as_deref(), Some("42501"));
    assert_eq!(schema.message, "permission denied");
    assert!(report.loaded.is_empty());
    assert!(report.rejected.is_empty());
    assert_eq!(report.unfinished, vec!["a".to_string(), "b".to_string()]);
}

#[test]
fn each_distinct_table_is_prepared_once_in_order_of_first_use() {
    let jobs = vec![job("a", "t1"), job("b", "t2"), job("c", "t1"), job("d", "t3"), job("e", "t2")];
    let mut batch = Batch::new(jobs, 16);
    let (steps, first) = prepare(&mut batch);
    assert!(matches!(first, BatchAction::Start { job: 0, .. }));
    let mut expected = Vec::new();
    for table in ["t1", "t2", "t3"] {
        for statement in geo_ingest::schema::schema_statements(table) {
            expected.push((table.to_string(), statement));
        }
    }
    assert_eq!(steps, expected);
}

#[test]
fn no_more_jobs_run_than_the_limit_allows() {
    let mut batch = Batch::new(jobs_into("geo", &["a", "b", "c", "d", "e"]), 2);
    let (_, first) = prepare(&mut batch);
    assert!(matches!(first, BatchAction::Start { job: 0, .. }));
    assert!(matches!(batch.next_action(), BatchAction::Start { job: 1, .. }));
    assert!(matches!(batch.next_action(), BatchAction::Wait));
    assert_eq!(batch.running(), 2);
    assert!(batch.job_finished(1, Ok(1)));
    assert_eq!(batch.running(), 1);
    assert!(matches!(batch.next_action(), BatchAction::Start { job: 2, .. }));
    assert!(matches!(batch.next_action(), BatchAction::Wait));
    assert!(batch.job_finished(0, Ok(1)));
    assert!(batch.job_finished(2, Ok(1)));
    assert!(matches!(batch.next_action(), BatchAction::Start { job: 3, .. }));
    assert!(matches!(batch.next_action(), BatchAction::Start { job: 4, .. }));
    assert!(matches!(batch.next_action(), BatchAction::Wait));
    assert!(batch.job_finished(3, Ok(1)));
    assert!(batch.job_finished(4, Ok(1)));
    assert!(matches!(batch.next_action(), BatchAction::Finish));
    assert_eq!(batch.outcome().unwrap().len(), 5);
}

#[test]
fn limit_of_zero_is_taken_as_one() {
    let mut batch = Batch::new(jobs_into("geo", &["a", "b"]), 0);
    let (_, first) = prepare(&mut batch);
    assert!(matches!(first, BatchAction::Start { job: 0, .. }));
    assert!(matches!(batch.next_action(), BatchAction::Wait));
    assert!(batch.job_finished(0, Ok(1)));
    assert!(matches!(batch.next_action(), BatchAction::Start { job: 1, .. }));
}

#[test]
fn end_of_a_job_that_is_not_running_is_ignored() {
    let mut batch = Batch::new(jobs_into("geo", &["a", "b"]), 1);
    assert!(!batch.job_finished(0, Ok(1)));
    assert!(!batch.statement_checked(Ok(())));
    let (_, first) = prepare(&mut batch);
    assert!(!batch.statement_checked(Ok(())));
    assert!(matches!(first, BatchAction::Start { job: 0, .. }));
    assert!(!batch.job_finished(1, Ok(1)));
    assert!(!batch.job_finished(7, Ok(1)));
    assert!(batch.job_finished(0, Ok(1)));
    assert!(!batch.job_finished(0, Ok(1)));
    assert!(matches!(batch.next_action(), BatchAction::Start { job: 1, .. }));
    assert!(batch.job_finished(1, Ok(4)));
    let loaded = batch.outcome().unwrap();
    assert_eq!(loaded.len(), 2);
    assert_eq!(loaded[0].rows, 1);
}

#[test]
fn batch_without_files_is_finished_at_once() {
    let mut batch = Batch::new(Vec::new(), 16);
    assert!(matches!(batch.next_action(), BatchAction::Finish));
    assert!(batch.outcome().unwrap().is_empty());
}

#[test]
fn unfinished_jobs_are_named_in_the_report() {
    let mut batch = Batch::new(jobs_into("geo", &["a", "b", "c"]), 1);
    let (_, first) = prepare(&mut batch);
    assert!(matches!(first, BatchAction::Start { job: 0, .. }));
    assert!(batch.job_finished(0, Ok(1)));
    batch.next_action();
    let report = batch.outcome().unwrap_err();
    assert_eq!(report.loaded.len(), 1);
    assert_eq!(report.unfinished, vec!["b".to_string(), "c".to_string()]);
}

#[test]
fn table_is_the_callers_or_the_file_stem_or_unknown() {
    assert_eq!(choose_table_name(Some("geo"), Some("regions".to_string())), "geo");
    assert_eq!(choose_table_name(Some("geo"), None), "geo");
    assert_eq!(choose_table_name(None, Some("regions".to_string())), "regions");
    assert_eq!(choose_table_name(None, None), "unknown");
}

#[test]
fn job_table_is_derived_from_the_file_name() {
    let derived = IngestJob::new("/data/in/nuts3_2024.geojson".to_string(), None);
    assert_eq!(derived.path, "/data/in/nuts3_2024.geojson");
    assert_eq!(derived.target.table, "nuts3_2024");
    assert_eq!(IngestJob::new("regions.v2.geojson".to_string(), None).target.table, "regions.v2");
    assert_eq!(IngestJob::new("plain".to_string(), None).target.table, "plain");
    assert_eq!(IngestJob::new("/".to_string(), None).target.table, "unknown");
    assert_eq!(IngestJob::new("/data/in/x.geojson".to_string(), Some("geo")).target.table, "geo");
}

#[test]
fn jobs_are_planned_one_for_each_path() {
    let paths = vec!["/in/a.geojson".to_string(), "/in/sub/b.json".to_string()];
    let jobs = plan_jobs(paths.clone(), None);
    assert_eq!(jobs.len(), 2);
    assert_eq!((jobs[0].path.as_str(), jobs[0].target.table.as_str()), ("/in/a.geojson", "a"));
    assert_eq!((jobs[1].path.as_str(), jobs[1].target.table.as_str()), ("/in/sub/b.json", "b"));
    let jobs = plan_jobs(paths, Some("geo"));
    assert_eq!((jobs[0].path.as_str(), jobs[0].target.table.as_str()), ("/in/a.geojson", "geo"));
    assert_eq!((jobs[1].path.as_str(), jobs[1].target.table.as_str()), ("/in/sub/b.json", "geo"));
    assert!(plan_jobs(Vec::new(), None).is_empty());
}

#[test]
fn insert_geojson_plans_a_batch_with_the_pool_size() {
    let paths: Vec<String> = (0..20).map(|i| format!("/in/f{}.geojson", i)).collect();
    let mut batch = PostgresQueriesWrite.insert_geojson(paths, Some("geo"));
    let (steps, mut action) = prepare(&mut batch);
    assert_eq!(steps.len(), 3);
    for expected in 0..16 {
        let (job, path, table) = expect_start(action);
        action = batch.next_action();
        assert_eq!(job, expected);
        assert_eq!(path, format!("/in/f{}.geojson", expected));
        assert_eq!(table, "geo");
    }
    assert!(matches!(action, BatchAction::Wait));
    assert_eq!(batch.running(), 16);
}

#[test]
fn custom_unwrap_or_prefers_the_value() {
    assert_eq!(custom_unwrap_or(Some("given"), "default"), "given");
    assert_eq!(custom_unwrap_or(None, "default"), "default");
    assert_eq!(custom_unwrap_or(Some(7), 4), 7);
    assert_eq!(custom_unwrap_or(None, 4), 4);
}

#[test]
fn only_a_feature_collection_has_features() {
    let feature = || Feature { id: None, properties: None, geometry: None };
    let features = into_features(Document::FeatureCollection(vec![feature(), feature()])).unwrap();
    assert_eq!(features.len(), 2);
    assert!(into_features(Document::FeatureCollection(Vec::new())).unwrap().is_empty());
    match into_features(Document::Feature(feature())) {
        Err(IngestError::Parse(text)) => {
            assert_eq!(text, "GeoJSON file does not contain a FeatureCollection")
        }
        other => panic!("expected a parse error, got {:?}", other),
    }
    let bare = Document::Geometry(Geometry::Point(vec!["1".to_string(), "2".to_string()]));
    assert!(matches!(into_features(bare), Err(IngestError::Parse(_))));
}

#[test]
fn process_file_prepares_an_upload_that_has_not_begun() {
    let feature = Feature { id: None, properties: None, geometry: None };
    let upload = process_file("geo", Document::FeatureCollection(vec![feature])).unwrap();
    assert_eq!(upload.phase(), Phase::Idle);
    assert_eq!(upload.sent(), 0);
    let single = Document::Feature(Feature { id: None, properties: None, geometry: None });
    assert!(matches!(process_file("geo", single), Err(IngestError::Parse(_))));
}

#[test]
fn failed_connection_rejects_the_file() {
    let mut batch = Batch::new(jobs_into("geo", &["a"]), 16);
    let (_, first) = prepare(&mut batch);
    expect_start(first);
    assert!(batch.job_finished(0, Err(IngestError::Connection("pool timed out".to_string()))));
    let report = batch.outcome().unwrap_err();
    assert_eq!(report.rejected.len(), 1);
    assert!(matches!(
        &report.rejected[0].cause,
        IngestError::Connection(text) if text == "pool timed out"
    ));
}

#[test]
fn encode_errors_become_job_errors() {
    let feature = Feature {
        id: None,
        properties: None,
        geometry: Some(Geometry::Unsupported("GeometryCollection".to_string())),
    };
    let error = geo_ingest::feature::encode_row(&feature, 5).unwrap_err();
    match from_upload_error(UploadError::Encode(error)) {
        IngestError::Encode(e) => {
            assert_eq!(e.feature_index, 5);
            assert_eq!(e.feature_name, "unknown_5");
        }
        other => panic!("expected an encode error, got {:?}", other),
    }
}

#[test]
fn upload_errors_become_job_errors() {
    assert!(matches!(
        from_upload_error(UploadError::Transmission("x".to_string())),
        IngestError::Transmission(text) if text == "x"
    ));
    assert!(matches!(from_upload_error(UploadError::OutOfTurn), IngestError::OutOfTurn));
}
