//! Conversion of legacy recipe tables into catalog tables.

pub mod error;
pub mod i18n;
pub mod model;
pub mod validate;
pub mod convert;
