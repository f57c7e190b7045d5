//! Host configuration resolution, connection planning and tunnel relaying for
//! an SFTP client, with the decisions verified.

pub mod auth;
pub mod browser;
pub mod config;
pub mod connect;
pub mod keys;
pub mod parse;
pub mod pattern;
pub mod relay;
pub mod text;
pub mod tunnel;
