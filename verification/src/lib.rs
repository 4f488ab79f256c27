//! A loot-table selector: parses a line-oriented description of named items
//! (drawn uniformly or by integer weight) and selects one at random according
//! to the declared distribution.

pub mod parse;
pub mod select;
pub mod table;
