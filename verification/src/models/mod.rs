pub mod data_types;
pub mod json;
