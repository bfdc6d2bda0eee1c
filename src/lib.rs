//! Annotation of genomic intervals with the genes they overlap or lie near.

pub mod annotate;
pub mod classify;
pub mod location;
pub mod loctogene;
pub mod table;
pub mod text;
