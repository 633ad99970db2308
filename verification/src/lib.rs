pub mod cli;
pub mod config;
pub mod error;
pub mod git;
pub mod path_tree;
pub mod paths;
pub mod store;
pub mod text;
pub mod utils;
