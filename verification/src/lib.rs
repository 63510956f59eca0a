//! A content-addressed document store: documents are identified by the MD5
//! digest of their bytes, cut into numbered chunks under a splitting
//! strategy, and each chunk may carry an embedding vector per embeddings
//! configuration. Collections, index profiles, collection indexes and
//! sessions form the graph around them.
//!
//! Every operation is a verified transition of [`store::Store`], whose
//! mathematical model is [`model::State`]. The laws that relate several
//! operations are proved in [`laws`].

pub mod error;
pub mod hash;
pub mod json;
pub mod laws;
pub mod model;
pub mod relations;
pub mod rows;
pub mod store;
pub mod vector_codec;
