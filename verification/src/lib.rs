pub mod auth;
pub mod config;
pub mod git;
pub mod protocol;
pub mod pty;
pub mod qr_code;
pub mod search;
pub mod shell_integration;
pub mod strutil;
pub mod tls;
pub mod vpn_detect;
pub mod watcher;
pub mod ws_bridge;
pub mod ws_server;
