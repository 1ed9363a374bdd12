//! Genomic coordinates and the rows of common genome-annotation formats.

pub mod format;
pub mod genome;
pub mod text;
