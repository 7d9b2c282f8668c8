//! Multi-device bookmark synchronisation: the bookmark, session and user
//! stores, signed session tokens, the sync coordinator and the live
//! broadcast hub, with machine-checked contracts.

pub mod auth;
pub mod config;
pub mod data;
pub mod error;
pub mod handlers;
pub mod hub;
pub mod server;
pub mod signin;
pub mod text;
pub mod time;
