pub mod client;
pub mod error;
pub mod router;
pub mod types;
