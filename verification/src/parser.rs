pub mod types;
pub mod whamm_parser;
