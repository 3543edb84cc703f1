pub mod changelog;
pub mod config;
pub mod dates;
pub mod errors;
pub mod release;
pub mod text;

