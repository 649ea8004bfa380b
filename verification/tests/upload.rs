use geo_ingest::feature::{EncodeCause, Feature, FeatureId};
use geo_ingest::geometry::{Geometry, GeometryError};
use geo_ingest::upload::{copy_statement, FileUpload, Phase, UploadAction, UploadError, UploadEvent};

fn named(name: &str, x: &str, y: &str) -> Feature {
    Feature {
        id: Some(FeatureId::Text(name.to_string())),
        properties: None,
        geometry: Some(Geometry::Point(vec![x.to_string(), y.to_string()])),
    }
}

fn unsupported(name: &str) -> Feature {
    Feature {
        id: Some(FeatureId::Text(name.to_string())),
        properties: None,
        geometry: Some(Geometry::Unsupported("GeometryCollection".to_string())),
    }
}

fn expect_send(action: UploadAction) -> String {
    match action {
        UploadAction::Send(record) => record,
        other => panic!("expected a record, got {:?}", other),
    }
}

#[test]
fn copy_statement_names_table_and_columns() {
    assert_eq!(
        copy_statement("regions"),
        "COPY regions (name, properties, geometry) FROM STDIN (FORMAT csv)"
    );
}

#[test]
fn upload_sends_records_in_order_then_closes_once() {
    let features = vec![named("a", "1", "2"), named("b", "3", "4"), named("c", "5", "6")];
    let mut upload = FileUpload::new("regions".to_string(), features);
    assert_eq!(upload.phase(), Phase::Idle);
    match upload.step(UploadEvent::Begin) {
        UploadAction::Open(statement) => assert_eq!(
            statement,
            "COPY regions (name, properties, geometry) FROM STDIN (FORMAT csv)"
        ),
        other => panic!("expected to open, got {:?}", other),
    }
    assert_eq!(upload.phase(), Phase::Opening);
    assert_eq!(expect_send(upload.step(UploadEvent::Opened)), "a,null,POINT(1 2)\n");
    assert_eq!(upload.sent(), 1);
    assert_eq!(expect_send(upload.step(UploadEvent::Sent)), "b,null,POINT(3 4)\n");
    assert_eq!(expect_send(upload.step(UploadEvent::Sent)), "c,null,POINT(5 6)\n");
    assert_eq!(upload.phase(), Phase::Sending);
    assert_eq!(upload.sent(), 3);
    assert!(matches!(upload.step(UploadEvent::Sent), UploadAction::Close));
    assert_eq!(upload.phase(), Phase::Closing);
    assert!(matches!(upload.step(UploadEvent::Closed), UploadAction::Finish(3)));
    assert_eq!(upload.phase(), Phase::Done);
    assert!(matches!(upload.step(UploadEvent::Closed), UploadAction::Rest));
    assert!(matches!(upload.step(UploadEvent::Begin), UploadAction::Rest));
    assert_eq!(upload.phase(), Phase::Done);
}

#[test]
fn features_without_id_are_named_by_position_in_the_file() {
    let mut features = Vec::new();
    for _ in 0..4 {
        features.push(Feature { id: None, properties: None, geometry: None });
    }
    let mut upload = FileUpload::new("t".to_string(), features);
    upload.step(UploadEvent::Begin);
    assert_eq!(expect_send(upload.step(UploadEvent::Opened)), "unknown_0,null,NULL\n");
    assert_eq!(expect_send(upload.step(UploadEvent::Sent)), "unknown_1,null,NULL\n");
    assert_eq!(expect_send(upload.step(UploadEvent::Sent)), "unknown_2,null,NULL\n");
    assert_eq!(expect_send(upload.step(UploadEvent::Sent)), "unknown_3,null,NULL\n");
}

#[test]
fn empty_file_is_closed_at_once() {
    let mut upload = FileUpload::new("t".to_string(), Vec::new());
    assert!(matches!(upload.step(UploadEvent::Begin), UploadAction::Open(_)));
    assert!(matches!(upload.step(UploadEvent::Opened), UploadAction::Close));
    assert!(matches!(upload.step(UploadEvent::Closed), UploadAction::Finish(0)));
}

#[test]
fn later_feature_that_cannot_be_encoded_aborts_the_file() {
    let features = vec![named("a", "1", "2"), unsupported("bad"), named("c", "5", "6")];
    let mut upload = FileUpload::new("t".to_string(), features);
    upload.step(UploadEvent::Begin);
    assert_eq!(expect_send(upload.step(UploadEvent::Opened)), "a,null,POINT(1 2)\n");
    match upload.step(UploadEvent::Sent) {
        UploadAction::Abort(UploadError::Encode(e)) => {
            assert_eq!(e.feature_index, 1);
            assert_eq!(e.feature_name, "bad");
            assert!(matches!(
                e.cause,
                EncodeCause::Geometry(GeometryError::UnsupportedGeometry(_))
            ));
        }
        other => panic!("expected an abort, got {:?}", other),
    }
    assert_eq!(upload.phase(), Phase::Aborted);
    assert_eq!(upload.sent(), 1);
    // Whatever is reported from now on, the channel is never closed.
    assert!(matches!(upload.step(UploadEvent::Sent), UploadAction::Rest));
    assert!(matches!(upload.step(UploadEvent::Closed), UploadAction::Rest));
    assert!(matches!(upload.step(UploadEvent::Begin), UploadAction::Rest));
    assert_eq!(upload.phase(), Phase::Aborted);
}

#[test]
fn first_feature_that_cannot_be_encoded_aborts_before_any_record() {
    let mut upload = FileUpload::new("t".to_string(), vec![unsupported("bad")]);
    upload.step(UploadEvent::Begin);
    assert!(matches!(
        upload.step(UploadEvent::Opened),
        UploadAction::Abort(UploadError::Encode(_))
    ));
    assert_eq!(upload.sent(), 0);
}

#[test]
fn failed_open_aborts() {
    let mut upload = FileUpload::new("t".to_string(), vec![named("a", "1", "2")]);
    upload.step(UploadEvent::Begin);
    match upload.step(UploadEvent::Failed("relation does not exist".to_string())) {
        UploadAction::Abort(UploadError::Transmission(text)) => {
            assert_eq!(text, "relation does not exist")
        }
        other => panic!("expected an abort, got {:?}", other),
    }
    assert_eq!(upload.phase(), Phase::Aborted);
}

#[test]
fn failed_send_aborts() {
    let mut upload =
        FileUpload::new("t".to_string(), vec![named("a", "1", "2"), named("b", "3", "4")]);
    upload.step(UploadEvent::Begin);
    upload.step(UploadEvent::Opened);
    assert!(matches!(
        upload.step(UploadEvent::Failed("broken pipe".to_string())),
        UploadAction::Abort(UploadError::Transmission(_))
    ));
    assert!(matches!(upload.step(UploadEvent::Sent), UploadAction::Rest));
}

#[test]
fn failed_close_aborts_and_reports_no_completion() {
    let mut upload = FileUpload::new("t".to_string(), vec![named("a", "1", "2")]);
    upload.step(UploadEvent::Begin);
    upload.step(UploadEvent::Opened);
    assert!(matches!(upload.step(UploadEvent::Sent), UploadAction::Close));
    assert!(matches!(
        upload.step(UploadEvent::Failed("duplicate key".to_string())),
        UploadAction::Abort(UploadError::Transmission(_))
    ));
    assert!(matches!(upload.step(UploadEvent::Closed), UploadAction::Rest));
    assert_eq!(upload.phase(), Phase::Aborted);
}

#[test]
fn report_out_of_turn_aborts() {
    let mut upload = FileUpload::new("t".to_string(), vec![named("a", "1", "2")]);
    assert!(matches!(
        upload.step(UploadEvent::Sent),
        UploadAction::Abort(UploadError::OutOfTurn)
    ));
    let mut upload = FileUpload::new("t".to_string(), vec![named("a", "1", "2")]);
    upload.step(UploadEvent::Begin);
    assert!(matches!(
        upload.step(UploadEvent::Closed),
        UploadAction::Abort(UploadError::OutOfTurn)
    ));
    let mut upload = FileUpload::new("t".to_string(), vec![named("a", "1", "2")]);
    upload.step(UploadEvent::Begin);
    upload.step(UploadEvent::Opened);
    assert!(matches!(
        upload.step(UploadEvent::Begin),
        UploadAction::Abort(UploadError::OutOfTurn)
    ));
}
