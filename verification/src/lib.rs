pub mod text;
pub mod pattern;
pub mod split;
pub mod num;
pub mod strops;
pub mod generation;
pub mod models;
pub mod url_validator;
pub mod vtt_parser;
pub mod transcript;
pub mod summary;
pub mod tasks;
pub mod timestamp_linker;
pub mod markdown_converter;
pub mod markdown_renderer;
pub mod hacker_news;
pub mod cluster_titler;
pub mod state;
pub mod limits;
pub mod submission;
pub mod services;
pub mod export_db;
pub mod templates;
