pub mod context;
pub mod types;
