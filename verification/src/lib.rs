//! Ingestion of text documents into a vector index: lines are read, gathered into
//! chunks, embedded, turned into points and written in batches.
//!
//! The library holds the rules of the pipeline and proves them. It reads no file and
//! calls no service: `ingest::Ingestion` says what is to be done next and is told how
//! it went. `laws` states what holds of every run.

pub mod batch;
pub mod config;
pub mod error;
pub mod ident;
pub mod ingest;
pub mod laws;
pub mod model;
pub mod points;
pub mod text;
