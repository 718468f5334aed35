pub mod agent;
pub mod baseline;
pub mod cli;
pub mod config;
pub mod decide;
pub mod diagnostic;
pub mod files;
pub mod json;
pub mod mcp;
pub mod model;
pub mod pipeline;
pub mod process;
pub mod profile;
pub mod report;
pub mod shadow;
pub mod stage;
pub mod stages;
pub mod text;
pub mod verify;
