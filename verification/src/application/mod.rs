pub mod error;
pub mod use_cases;
