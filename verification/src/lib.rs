//! Encoding of GeoJSON features into delimited records for bulk loading,
//! with the decisions that drive a bulk upload and a batch of ingestion jobs.

pub mod batch;
pub mod config;
pub mod csv;
pub mod csv_reader;
pub mod feature;
pub mod file;
pub mod geometry;
pub mod ingest;
pub mod json;
pub mod number;
pub mod queries;
pub mod schema;
pub mod text;
pub mod upload;
pub mod walk;
pub mod wkt_reader;
