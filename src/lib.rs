//! Verified ingestion of a line-oriented text mesh format: a tokenizer for
//! its directives, the accumulation of positions, normals and triangles, the
//! reconciliation into GPU-ready vertex and index arrays, and the binary layout
//! of the uploaded vertex record.
pub mod directive;
pub mod layout;
pub mod mesh;
pub mod text;
