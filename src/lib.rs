//! Exports a laid-out document (pages of positioned items) into an output
//! document model: page references, absolutely positioned items, a
//! deduplicated asset table and resolved link annotations.
pub mod doc;
pub mod export;

pub mod geom;
pub mod html;
pub mod output;
pub mod reference;
pub mod walk;
