//! Link-shortener core: URL and header validation, the CLI's argument and
//! profile logic, and the server's request decisions.
pub mod text;
pub mod urlparse;
pub mod validate;
pub mod types;
pub mod cli;
pub mod paths;
pub mod config;
pub mod slug;
pub mod qr;
pub mod headers_json;
pub mod server;
pub mod web;
pub mod args;
pub mod laws;
