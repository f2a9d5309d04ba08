//! Compound (multi-column) B-tree scalar indices.
pub mod batch;
pub mod compound;
pub mod create;
pub mod datatype;
pub mod error;
pub mod first;
pub mod flat;
pub mod index;
pub mod lookup;
pub mod pages;
pub mod parser;
pub mod plugin;
pub mod row_set;
pub mod rowids;
pub mod rows;
pub mod scalar;
pub mod schema;
pub mod stats;
pub mod text;
pub mod train;
pub mod trained;
