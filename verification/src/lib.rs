pub mod config;
pub mod content;
pub mod date;
pub mod expand;
pub mod generator;
pub mod paths;
pub mod resolver;
pub mod rss;
pub mod strmap;
