//! The client of the IPAMS asset store: it takes files from a user's machine to the backend.
//!
//! The library decides, and keeps the state on which it decides. What is to be done outside, such as
//! writing a file, sending a request or telling a client something, it hands back as values, and what
//! came of it is handed in again.
pub mod api;
pub mod auth;
pub mod base64;
pub mod checksum;
pub mod clock;
pub mod config;
pub mod deep_link;
pub mod json;
pub mod pairs;
pub mod path;
pub mod shell;
pub mod text;
pub mod transfer;
pub mod ws_server;
