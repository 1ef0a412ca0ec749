//! Embedding, storage and similarity search for the entities of a code base.
//!
//! Entities are the functions, classes, variables and docstrings of source files.
//! An [`embedder::Embedder`] turns the text of an entity into a vector; a
//! [`vector_store::VectorStore`] keeps the vector with its metadata in the
//! namespace of one project; [`vector_search::search_vectors`] ranks the stored
//! vectors against a query; [`vectorize::BatchIndexer`] and
//! [`batch_processing::batch_process_entities`] index many entities at once and
//! keep going where one of them fails.
//!
//! Numbers are carried as the bit patterns of single-precision values (see
//! [`score`]). The library never computes with them: it orders scores and compares
//! them with bounds, and it leaves the arithmetic of a similarity to a kernel that
//! the caller hands in. Nothing in the library reads a file or talks to a server:
//! [`redis_store`] and [`redis_ops`] say which commands write a record, and the
//! caller runs them.

pub mod ast_parser;
pub mod batch_processing;
pub mod cli;
pub mod config;
pub mod embedder;
pub mod extract_entities;
pub mod file_processing;
pub mod json;
pub mod line_scan;
pub mod memory_store;
pub mod metadata;
pub mod output_format;
pub mod python_syntax;
pub mod redis_ops;
pub mod redis_store;
pub mod score;
pub mod text;
pub mod vector_search;
pub mod vector_store;
pub mod vectorize;

pub use batch_processing::batch_process_entities;
pub use extract_entities::extract_entities;
