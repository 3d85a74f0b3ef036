//! A PAC-aware forwarding proxy's decision logic: header parsing,
//! authentication choices, PAC evaluation state, tunnel handshakes and
//! service descriptions.
pub mod auth;
pub mod auth_win;
pub mod cli;
pub mod codec;
pub mod config;
pub mod order;
pub mod launchd;
pub mod pac;
pub mod proxy;
pub mod service;
pub mod spnego;
pub mod text;
pub mod tunnel;
