//! A file of JSON and the name that its data goes by.

use vstd::prelude::*;
use vstd::std_specs::iter::IteratorSpec;
use crate::json::{parse_json, parsed_json};
use crate::text::push_char;

verus! {

/// The data of a file, under the name of the file without its extensions.
#[derive(Debug)]
pub struct GeoJSONFile {
    pub file_name: String,
    pub json_data: serde_json::Value,
}

/// Why a file could not be taken in.
#[derive(Debug)]
pub enum FileError {
    /// The content is not JSON.
    Json(serde_json::Error),
    /// The path ends in no file name.
    NoFileName,
}

/// A feature with the name of its data set and its geometry as text.
#[derive(Debug)]
pub struct FeatureWithMeta {
    pub dataset_name: String,
    pub properties: serde_json::Value,
    pub geometry_wkt: String,
}

/// Where the first dot stands, or the length where there is none.
pub open spec fn first_dot(name: Seq<char>) -> int
    decreases name.len(),
{
    if name.len() == 0 || name[0] == '.' {
        0
    } else {
        1 + first_dot(name.drop_first())
    }
}

/// The name up to its first dot: all of it where it has none.
pub open spec fn before_first_dot_text(name: Seq<char>) -> Seq<char> {
    name.take(first_dot(name))
}

proof fn lemma_first_dot(name: Seq<char>)
    ensures
        0 <= first_dot(name) <= name.len(),
        forall|i: int| 0 <= i < first_dot(name) ==> name[i] != '.',
        first_dot(name) < name.len() ==> name[first_dot(name)] == '.',
    decreases name.len(),
{
    if !(name.len() == 0 || name[0] == '.') {
        let rest = name.drop_first();
        lemma_first_dot(rest);
        assert forall|i: int| 0 <= i < first_dot(name) implies name[i] != '.' by {
            if i > 0 {
                assert(name[i] == rest[i - 1]);
            }
        }
    }
}

proof fn lemma_first_dot_found(name: Seq<char>, k: int)
    requires
        0 <= k <= name.len(),
        forall|i: int| 0 <= i < k ==> name[i] != '.',
        k < name.len() ==> name[k] == '.',
    ensures
        first_dot(name) == k,
{
    lemma_first_dot(name);
    let d = first_dot(name);
    if d < k {
        assert(name[d] != '.');
    } else if k < d {
        assert(name[k] != '.');
    }
}

/// The name up to its first dot.
pub fn before_first_dot(name: &str) -> (out: String)
    ensures
        out@ == before_first_dot_text(name@),
{
    let mut out = String::new();
    let mut done = false;
    for c in it: name.chars()
        invariant
            it.seq() == name@,
            !done ==> out@ == name@.take(it.index() as int),
            !done ==> forall|i: int| 0 <= i < it.index() ==> name@[i] != '.',
            done ==> out@ == before_first_dot_text(name@),
    {
        if !done {
            if c == '.' {
                done = true;
                proof {
                    lemma_first_dot_found(name@, it.index() as int);
                }
            } else {
                push_char(&mut out, c);
                assert(out@ =~= name@.take(it.index() + 1));
            }
        }
    }
    proof {
        if !done {
            lemma_first_dot_found(name@, name@.len() as int);
        }
    }
    out
}

/// The last component of a path, by `Path::file_name`: `None` where the
/// path ends in no file name. Nothing is claimed of the result, which
/// depends on the platform's rules for paths.
#[verifier::external_body]
pub(crate) fn file_name(path: &str) -> (name: Option<String>) {
    std::path::Path::new(path).file_name().and_then(|s| s.to_str()).map(|s| s.to_string())
}

impl GeoJSONFile {
    /// The file of a name and of what its content was read as.
    ///
    /// Content that is not JSON is reported first, then a path without a
    /// file name; otherwise the data goes by the file name up to its first
    /// dot.
    pub fn from_parts(
        name: Option<String>,
        parsed: Result<serde_json::Value, serde_json::Error>,
    ) -> (res: Result<GeoJSONFile, FileError>)
        ensures
            match res {
                Ok(file) => {
                    &&& parsed == Ok::<_, serde_json::Error>(file.json_data)
                    &&& name matches Some(full)
                    &&& file.file_name@ == before_first_dot_text(full@)
                },
                Err(FileError::Json(e)) => parsed == Err::<serde_json::Value, _>(e),
                Err(FileError::NoFileName) => parsed is Ok && name is None,
            },
    {
        let json_data = match parsed {
            Ok(value) => value,
            Err(e) => {
                return Err(FileError::Json(e));
            },
        };
        match name {
            Some(full) => Ok(
                GeoJSONFile { file_name: before_first_dot(full.as_str()), json_data },
            ),
            None => Err(FileError::NoFileName),
        }
    }

    /// Takes in the content of the file at a path: the content is read as
    /// JSON, and the data goes by the name of the file up to its first dot.
    pub fn process_geojson_file(path: &str, content: &str) -> (res: Result<GeoJSONFile, FileError>)
        ensures
            match res {
                Ok(file) => parsed_json(content@) == Some(file.json_data),
                Err(FileError::Json(_)) => parsed_json(content@) is None,
                Err(FileError::NoFileName) => parsed_json(content@) is Some,
            },
    {
        let parsed = parse_json(content);
        let name = file_name(path);
        GeoJSONFile::from_parts(name, parsed)
    }
}

} // verus!
