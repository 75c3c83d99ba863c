//! Text transformations selected by name: case mapping, space removal,
//! slugs, and rendering CSV input as an aligned table.

pub mod dispatch;
pub mod error;
pub mod reader;
pub mod table;
pub mod text;
