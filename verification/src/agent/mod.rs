pub mod context;
pub mod error;
pub mod event;
pub mod repair;
pub mod session;
pub mod tools;
