//! Typed reading of tagged flat files of market data, and their projection
//! onto fixed column schemas.
pub mod text;
pub mod calendar;
pub mod value;
pub mod error;
pub mod package;
pub mod record;
pub mod flatfile;
pub mod fetch;
pub mod state;
pub mod actions;
pub mod laws;
