pub mod csv_text;
pub mod error;
pub mod text;
pub mod zip_bytes;
