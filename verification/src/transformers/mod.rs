pub mod aggregate;
pub mod conditions;
pub mod engine;
pub mod expressions;
pub mod join;
pub mod processor;
pub mod templates;
pub mod values;
