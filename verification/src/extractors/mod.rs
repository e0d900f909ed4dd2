pub mod api_client;
pub mod file_reader;
pub mod source;
