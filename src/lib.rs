pub mod codegen;
pub mod config;
pub mod handlers;
pub mod numtext;
pub mod resolver;
pub mod store;
pub mod time;
