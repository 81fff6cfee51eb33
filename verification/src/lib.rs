pub mod app;
pub mod components;
pub mod curl;
pub mod focus;
pub mod http;
pub mod keys;
pub mod layout;
pub mod string_map;
pub mod text;
pub mod textarea;
pub mod sort;
pub mod listing;
pub mod paths;
