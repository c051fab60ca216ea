//! LaTeX and Typst symbols: their identifiers, the markup that writes them,
//! and a table that finds a symbol again from its identifier.

pub mod markup;
pub mod encoding;
pub mod symbol;
pub mod table;
pub mod cli;
pub mod item;
