//! Converts CSV records into SQL insert statements.
pub mod arguments;
pub mod number;
pub mod target;
pub mod text;

use vstd::prelude::*;

verus! {

/// The configuration of one conversion, fixed before it starts.
pub struct Arguments {
    /// Path of the CSV file to read.
    pub source: String,
    /// Path of the file to write.
    pub target: String,
    /// `sql` or `csv`.
    pub target_type: String,
    /// The byte that separates the fields of a record.
    pub delimiter: u8,
    /// Whether the first record holds the column names.
    pub has_headers: bool,
    /// The table the statements insert into.
    pub table: String,
    /// Column names that replace the header record when not empty.
    pub columns: Vec<String>,
    /// Insert statements per transaction; 0 means one transaction for the whole run.
    pub chunk: usize,
    /// Rows per insert statement; 0 means one row per statement.
    pub chunk_insert: usize,
    /// Path of a template written before the statements.
    pub prefix: String,
    /// Path of a template written after the statements.
    pub suffix: String,
    /// Whether the statements are wrapped in transactions.
    pub with_transaction: bool,
    /// Whether values are typed by their text or all quoted as strings.
    pub typed: bool,
}

} // verus!
