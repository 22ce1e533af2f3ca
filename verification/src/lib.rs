pub mod casefold;
pub mod config;
pub mod laws;
pub mod lines;
pub mod search;
pub mod seq_facts;
pub mod substring;

pub use config::CaseFormat;
pub use config::Config;
pub use search::search;
pub use search::search_case_insensitive;
pub use search::search_with_config;
