//! Building a catalog from the records of the catalog data files.

pub mod error;
pub mod schema;
pub mod assemble;
pub mod regions;
