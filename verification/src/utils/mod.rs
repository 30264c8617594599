pub mod bucket;
pub mod db;
pub mod hash;
pub mod text;
pub mod time;

pub use bucket::{ensure_bucket_table, sanitize_bucket_name, validate_bucket, xml_error_response};
pub use db::{create_bucket_indexes, optimize_database};
