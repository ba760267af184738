pub mod text;
pub mod edit;
pub mod api;
pub mod stream;
pub mod engine;
pub mod tui;
pub mod search;
pub mod config;
pub mod coordinator;
pub mod tools;
pub mod mcp;
