pub mod chunker;
pub mod document;
pub mod dto;
pub mod embeddings;
pub mod ids;
pub mod ingest;
pub mod lease;
pub mod pdf;
pub mod routes;
pub mod status;
pub mod text;
pub mod vector_db;
