//! The avatar application's control protocol.

pub mod config;
pub mod cyclic;
pub mod plugin;
pub mod requests;
pub mod responses;
pub mod session;
