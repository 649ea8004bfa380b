//! Features and the records they are encoded to.

use vstd::prelude::*;
use vstd::string::StringExecFns;
use crate::csv::{encode_record, escaped_field, is_special, needs_quoting, record_text};
use crate::geometry::{geometry_to_wkt, wkt_text, Fault, Geometry, GeometryError};
use crate::json::{number_text, number_to_string, properties_text, properties_to_string};
use crate::text::{decimal, push_decimal};

verus! {

/// The identifier of a feature: a string or a number.
#[derive(Debug)]
pub enum FeatureId {
    Text(String),
    Number(serde_json::Number),
}

/// One record of a feature collection.
#[derive(Debug)]
pub struct Feature {
    pub id: Option<FeatureId>,
    pub properties: Option<serde_json::Map<String, serde_json::Value>>,
    pub geometry: Option<Geometry>,
}

/// One line of the bulk stream: the escaped fields of a feature, ended by
/// a newline.
pub type Record = String;

/// What went wrong while a feature was encoded.
#[derive(Debug)]
pub enum EncodeCause {
    Geometry(GeometryError),
    Properties(serde_json::Error),
}

/// A failure to encode one feature, with the name and the position of the
/// feature in its file.
#[derive(Debug)]
pub struct EncodeError {
    pub feature_name: String,
    pub feature_index: usize,
    pub cause: EncodeCause,
}

/// `unknown_`: what the name of a feature without an identifier begins with.
pub open spec fn unknown_prefix() -> Seq<char> {
    seq!['u', 'n', 'k', 'n', 'o', 'w', 'n', '_']
}

/// `NULL`: what stands in the geometry column of a feature without geometry.
pub open spec fn null_text() -> Seq<char> {
    seq!['N', 'U', 'L', 'L']
}

/// The name of a feature: its identifier, or `unknown_` and its position.
pub open spec fn name_text(id: Option<FeatureId>, index: nat) -> Seq<char> {
    match id {
        Some(FeatureId::Text(s)) => s@,
        Some(FeatureId::Number(n)) => number_text(n),
        None => unknown_prefix() + decimal(index),
    }
}

/// What keeps the geometry of a feature from being encoded, if anything.
pub open spec fn geometry_fault(geometry: Option<Geometry>) -> Option<Fault> {
    match geometry {
        Some(g) => g@.fault(),
        None => None,
    }
}

/// What stands in the geometry column.
pub open spec fn geometry_field(geometry: Option<Geometry>) -> Seq<char> {
    match geometry {
        Some(g) => wkt_text(g@),
        None => null_text(),
    }
}

/// A feature without geometry has `NULL` in its geometry column, as it
/// stands: without quotes.
pub proof fn lemma_null_is_written_as_it_stands()
    ensures
        escaped_field(geometry_field(None)) == null_text(),
{
    let null = null_text();
    assert(!needs_quoting(null)) by {
        assert forall|i: int| 0 <= i < null.len() implies !is_special(#[trigger] null[i]) by {
            assert(null.len() == 4);
            assert(null[0] == 'N' && null[1] == 'U' && null[2] == 'L' && null[3] == 'L');
        }
    }
}

/// The record of a feature: name, properties and geometry.
pub open spec fn row_text(feature: Feature, index: nat) -> Seq<char> {
    record_text(
        seq![
            name_text(feature.id, index),
            properties_text(feature.properties).unwrap(),
            geometry_field(feature.geometry),
        ],
    )
}

/// Why a feature has no record.
pub enum RowFault {
    /// The properties could not be serialised.
    Properties,
    /// The geometry could not be encoded.
    Geometry(Fault),
}

impl View for EncodeCause {
    type V = RowFault;

    open spec fn view(&self) -> RowFault {
        match *self {
            EncodeCause::Properties(_) => RowFault::Properties,
            EncodeCause::Geometry(e) => RowFault::Geometry(e@),
        }
    }
}

/// What keeps a feature from being encoded, if anything does: properties
/// that cannot be serialised are reported before a geometry that cannot be
/// encoded.
pub open spec fn row_fault(feature: Feature) -> Option<RowFault> {
    if properties_text(feature.properties) is None {
        Some(RowFault::Properties)
    } else if let Some(fault) = geometry_fault(feature.geometry) {
        Some(RowFault::Geometry(fault))
    } else {
        None
    }
}

/// The name under which a feature is stored.
pub fn feature_name(id: &Option<FeatureId>, index: usize) -> (name: String)
    ensures
        name@ == name_text(*id, index as nat),
{
    match id {
        Some(FeatureId::Text(s)) => s.clone(),
        Some(FeatureId::Number(n)) => number_to_string(n),
        None => {
            proof {
                reveal_strlit("unknown_");
                assert("unknown_"@ =~= unknown_prefix());
            }
            let mut name = String::from_str("unknown_");
            push_decimal(&mut name, index as u64);
            name
        },
    }
}

/// The record of a feature whose properties have been serialised, or the
/// error that the serialiser gave.
///
/// A failed serialisation is reported first, then a geometry that cannot be
/// encoded; otherwise the record is returned.
pub fn finish_row(
    feature: &Feature,
    index: usize,
    properties: Result<String, serde_json::Error>,
) -> (res: Result<Record, EncodeError>)
    ensures
        match res {
            Ok(record) => {
                &&& properties matches Ok(text)
                &&& geometry_fault(feature.geometry) is None
                &&& record@ == record_text(
                    seq![
                        name_text(feature.id, index as nat),
                        text@,
                        geometry_field(feature.geometry),
                    ],
                )
            },
            Err(e) => {
                &&& e.feature_index == index
                &&& e.feature_name@ == name_text(feature.id, index as nat)
                &&& match e.cause {
                    EncodeCause::Properties(inner) => properties == Err::<String, _>(inner),
                    EncodeCause::Geometry(ge) => properties is Ok && geometry_fault(
                        feature.geometry,
                    ) == Some(ge@),
                }
            },
        },
{
    let name = feature_name(&feature.id, index);
    let text = match properties {
        Ok(text) => text,
        Err(inner) => {
            return Err(
                EncodeError {
                    feature_name: name,
                    feature_index: index,
                    cause: EncodeCause::Properties(inner),
                },
            );
        },
    };
    let geometry = match &feature.geometry {
        Some(g) => match geometry_to_wkt(g) {
            Ok(wkt) => wkt,
            Err(ge) => {
                return Err(
                    EncodeError {
                        feature_name: name,
                        feature_index: index,
                        cause: EncodeCause::Geometry(ge),
                    },
                );
            },
        },
        None => {
            proof {
                reveal_strlit("NULL");
                assert("NULL"@ =~= null_text());
            }
            String::from_str("NULL")
        },
    };
    let ghost name_view = name@;
    let ghost text_view = text@;
    let ghost geometry_view = geometry@;
    let mut fields: Vec<String> = Vec::new();
    fields.push(name);
    fields.push(text);
    fields.push(geometry);
    let record = encode_record(&fields);
    proof {
        assert(crate::text::texts(fields@) =~= seq![name_view, text_view, geometry_view]);
    }
    Ok(record)
}

/// Encodes the feature at position `index` of its file as one record.
///
/// The record holds the name, the JSON text of the properties and the
/// well-known text of the geometry (`NULL` without one), each escaped. An
/// error names the feature and says whether the properties or the geometry
/// could not be encoded.
pub fn encode_row(feature: &Feature, index: usize) -> (res: Result<Record, EncodeError>)
    ensures
        match res {
            Ok(record) => {
                &&& row_fault(*feature) is None
                &&& record@ == row_text(*feature, index as nat)
            },
            Err(e) => {
                &&& e.feature_index == index
                &&& e.feature_name@ == name_text(feature.id, index as nat)
                &&& row_fault(*feature) == Some(e.cause@)
            },
        },
{
    let properties = properties_to_string(&feature.properties);
    finish_row(feature, index, properties)
}

} // verus!
