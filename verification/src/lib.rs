pub mod agent;
pub mod clock;
pub mod config;
pub mod data_git;
pub mod debug;
pub mod episode;
pub mod fatigue;
pub mod glob;
pub mod json;
pub mod llm;
pub mod mcp;
pub mod memory;
pub mod paths;
pub mod permission;
pub mod prompt;
pub mod session;
pub mod skills;
pub mod sleep;
pub mod text;
pub mod tui;
