pub mod api;
pub mod client;
pub mod commands;
pub mod json;
pub mod text;
pub mod trpc;
pub mod init;
pub mod report;
pub mod events;
pub mod debug;
pub mod streams;
pub mod listing;
