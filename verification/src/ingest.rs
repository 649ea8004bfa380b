//! A batch of ingestion jobs: one job per file, run side by side up to a
//! limit, each file loaded whole or not at all.
//!
//! The caller owns the pool of connections and the tasks. It asks the batch
//! what to do next and reports what came of it. The batch prepares every
//! destination table before the first job starts, starts each job once,
//! keeps the number of running jobs within the limit, and in the end names
//! every file with what became of it.

use vstd::prelude::*;
use vstd::string::StringExecFns;
use crate::feature::{EncodeError, Feature};
use crate::geometry::Geometry;
use crate::schema::SchemaError;
use crate::upload::{FileUpload, UploadError, UploadModel};

verus! {

/// How many jobs run side by side where the caller names no limit.
pub const DEFAULT_POOL_SIZE: usize = 16;

/// Where the rows of a file go: a table with a column for the name, one
/// for the properties and one for the geometry of each feature.
#[derive(Debug, Clone)]
pub struct IngestTarget {
    pub table: String,
}

/// One file and the table that it is loaded into.
#[derive(Debug, Clone)]
pub struct IngestJob {
    pub path: String,
    pub target: IngestTarget,
}

/// Why the job of one file failed.
#[derive(Debug)]
pub enum IngestError {
    /// The file does not hold a feature collection.
    Parse(String),
    /// A feature of the file could not be encoded.
    Encode(EncodeError),
    /// The bulk channel could not be opened, written to or closed.
    Transmission(String),
    /// No connection could be had for the job.
    Connection(String),
    /// The upload was driven out of turn.
    OutOfTurn,
}

/// What a file holds at its top level.
#[derive(Debug)]
pub enum Document {
    FeatureCollection(Vec<Feature>),
    Feature(Feature),
    Geometry(Geometry),
}

/// A file that was loaded, with the number of its rows.
#[derive(Debug)]
pub struct Loaded {
    pub job: usize,
    pub path: String,
    pub rows: usize,
}

/// A file of which nothing was loaded, with the reason.
#[derive(Debug)]
pub struct Rejected {
    pub job: usize,
    pub path: String,
    pub cause: IngestError,
}

/// The report of a batch in which not every file was loaded.
#[derive(Debug)]
pub struct AggregateError {
    /// The table that could not be prepared, if that ended the batch.
    pub schema: Option<SchemaError>,
    /// The files whose jobs failed, in the order in which they ended.
    pub rejected: Vec<Rejected>,
    /// The files that were loaded all the same.
    pub loaded: Vec<Loaded>,
    /// The files whose jobs never ended, in the order of the batch.
    pub unfinished: Vec<String>,
}

/// Where a job stands.
#[derive(Debug, Clone, Copy, PartialEq, Eq, Structural)]
pub enum JobState {
    Pending,
    Running,
    Finished,
}

/// What the caller is to do next.
#[derive(Debug)]
pub enum BatchAction {
    /// Run this schema statement of this table, then report the answer.
    Execute { table: String, statement: String },
    /// Start the job of this file on a connection of its own.
    Start { job: usize, path: String, table: String },
    /// Wait for an answer that is still owed, then report it.
    Wait,
    /// Nothing is left to do: ask for the outcome.
    Finish,
}

/// The model of an action.
pub enum BatchActionView {
    Execute { table: Seq<char>, statement: Seq<char> },
    Start { job: nat, path: Seq<char>, table: Seq<char> },
    Wait,
    Finish,
}

impl View for BatchAction {
    type V = BatchActionView;

    open spec fn view(&self) -> BatchActionView {
        match *self {
            BatchAction::Execute { table, statement } => BatchActionView::Execute {
                table: table@,
                statement: statement@,
            },
            BatchAction::Start { job, path, table } => BatchActionView::Start {
                job: job as nat,
                path: path@,
                table: table@,
            },
            BatchAction::Wait => BatchActionView::Wait,
            BatchAction::Finish => BatchActionView::Finish,
        }
    }
}

/// The name of the table where the caller gave none and the path has no
/// file name to take one from.
pub open spec fn fallback_table_text() -> Seq<char> {
    "unknown"@
}

/// The table of a file: the one that the caller names, else the stem of the
/// file's name, else `unknown`.
pub open spec fn chosen_table_text(explicit: Option<Seq<char>>, stem: Option<Seq<char>>) -> Seq<
    char,
> {
    match explicit {
        Some(table) => table,
        None => match stem {
            Some(stem) => stem,
            None => fallback_table_text(),
        },
    }
}

/// The value if there is one, else the default.
pub fn custom_unwrap_or<T>(value: Option<T>, default: T) -> (out: T)
    ensures
        out == match value {
            Some(v) => v,
            None => default,
        },
{
    match value {
        Some(v) => v,
        None => default,
    }
}

/// The file name of a path without its extension, by `Path::file_stem`:
/// `None` where the path ends in no file name. Nothing is claimed of the
/// result, which depends on the platform's rules for paths.
#[verifier::external_body]
pub(crate) fn file_stem(path: &str) -> (stem: Option<String>) {
    std::path::Path::new(path).file_stem().and_then(|s| s.to_str()).map(|s| s.to_string())
}

/// The table of a file, given the stem of its file name.
pub fn choose_table_name(explicit: Option<&str>, stem: Option<String>) -> (table: String)
    ensures
        table@ == chosen_table_text(
            match explicit {
                Some(t) => Some(t@),
                None => None,
            },
            match stem {
                Some(s) => Some(s@),
                None => None,
            },
        ),
{
    let derived = custom_unwrap_or(stem, String::from_str("unknown"));
    match explicit {
        Some(table) => String::from_str(table),
        None => derived,
    }
}

impl IngestJob {
    /// The job of a file: into the table that the caller names, or into the
    /// one named after the file.
    pub fn new(path: String, explicit: Option<&str>) -> (job: IngestJob)
        ensures
            job.path == path,
            explicit matches Some(table) ==> job.target.table@ == table@,
    {
        let stem = match explicit {
            Some(_) => None,
            None => file_stem(path.as_str()),
        };
        let table = choose_table_name(explicit, stem);
        IngestJob { path, target: IngestTarget { table } }
    }
}

/// One job for each path, in the order of the paths.
pub fn plan_jobs(paths: Vec<String>, explicit: Option<&str>) -> (jobs: Vec<IngestJob>)
    ensures
        jobs.len() == paths.len(),
        forall|i: int| 0 <= i < jobs.len() ==> (#[trigger] jobs[i]).path == paths[i],
        explicit matches Some(table) ==> forall|i: int|
            0 <= i < jobs.len() ==> (#[trigger] jobs[i]).target.table@ == table@,
{
    let mut jobs: Vec<IngestJob> = Vec::new();
    let mut i: usize = 0;
    while i < paths.len()
        invariant
            i <= paths.len(),
            jobs.len() == i,
            forall|j: int| 0 <= j < i ==> (#[trigger] jobs[j]).path == paths[j],
            explicit matches Some(table) ==> forall|j: int|
                0 <= j < i ==> (#[trigger] jobs[j]).target.table@ == table@,
        decreases paths.len() - i,
    {
        jobs.push(IngestJob::new(paths[i].clone(), explicit));
        i += 1;
    }
    jobs
}

/// The failure of a job whose upload was given up.
pub fn from_upload_error(error: UploadError) -> (out: IngestError)
    ensures
        out == match error {
            UploadError::Encode(e) => IngestError::Encode(e),
            UploadError::Transmission(text) => IngestError::Transmission(text),
            UploadError::OutOfTurn => IngestError::OutOfTurn,
        },
{
    match error {
        UploadError::Encode(e) => IngestError::Encode(e),
        UploadError::Transmission(text) => IngestError::Transmission(text),
        UploadError::OutOfTurn => IngestError::OutOfTurn,
    }
}

/// What is said of a file that holds something else than a collection.
pub open spec fn not_a_collection_text() -> Seq<char> {
    "GeoJSON file does not contain a FeatureCollection"@
}

/// The features of a file. Only a feature collection has any: a single
/// feature or a bare geometry at the top level is a parse error.
pub fn into_features(document: Document) -> (res: Result<Vec<Feature>, IngestError>)
    ensures
        match res {
            Ok(features) => document == Document::FeatureCollection(features),
            Err(e) => {
                &&& !(document is FeatureCollection)
                &&& e matches IngestError::Parse(text)
                &&& text@ == not_a_collection_text()
            },
        },
{
    match document {
        Document::FeatureCollection(features) => Ok(features),
        _ => Err(
            IngestError::Parse(
                String::from_str("GeoJSON file does not contain a FeatureCollection"),
            ),
        ),
    }
}

/// Prepares the upload of a parsed file into a table: the upload has not
/// begun, and holds the features of the file in their order.
pub fn process_file(table_name: &str, document: Document) -> (res: Result<FileUpload, IngestError>)
    ensures
        match res {
            Ok(upload) => {
                &&& document matches Document::FeatureCollection(features)
                &&& upload@ == UploadModel::initial(table_name@, features@)
            },
            Err(e) => {
                &&& !(document is FeatureCollection)
                &&& e matches IngestError::Parse(text)
                &&& text@ == not_a_collection_text()
            },
        },
{
    match into_features(document) {
        Ok(features) => Ok(FileUpload::new(String::from_str(table_name), features)),
        Err(e) => Err(e),
    }
}

} // verus!
