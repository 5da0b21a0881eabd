pub mod input;
pub mod settings;
pub mod slash;
pub mod state;
pub mod theme;
pub mod toml_tree;
pub mod transcript;
pub mod types;
