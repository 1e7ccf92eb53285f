//! Streaming analysis of MySQL-style dump files: recognizing table
//! definition lines, parsing table identifiers, filtering tables by
//! inclusion and exclusion patterns, extracting the kept tables' lines,
//! and per-table size and
//! row accounting with a quote- and escape-aware scan of
//! `INSERT ... VALUES` statements.

pub mod ascii;
pub mod extract;
pub mod filter;
pub mod human;
pub mod ident;
pub mod rows;
pub mod scan;
pub mod sizes;
pub mod split;
pub mod tuples;

pub use extract::extract_sql;
pub use extract::ExtractCursor;
pub use filter::should_skip;
pub use filter::Pattern;
pub use human::human_bytes;
pub use ident::is_table_ddl_line;
pub use ident::table_name_from_ddl_line;
pub use rows::compute_table_row_counts;
pub use rows::RowCursor;
pub use rows::TableRows;
pub use sizes::compute_table_sizes;
pub use sizes::SizeCursor;
pub use sizes::Table;
pub use split::extract_sql_per_table;
pub use split::TableOutput;
pub use tuples::count_insert_values_tuples_line;
pub use tuples::matches_values_kw;
