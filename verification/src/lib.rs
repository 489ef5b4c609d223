//! The decisions of a command-line client for a Capsule file server.

pub mod clock;
pub mod crypt;
pub mod download;
pub mod download_runs;
pub mod headers;
pub mod history;
pub mod links;
pub mod paths;
pub mod qr;
pub mod recents;
pub mod server;
pub mod status;
pub mod style;
pub mod temp;
pub mod text;
pub mod upload;
pub mod upload_runs;
