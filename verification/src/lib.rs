//! Decision logic of the Viralefy edge dispatcher.

pub mod auth;
pub mod config;
pub mod error;
pub mod headers;
pub mod jwt;
pub mod metrics;
pub mod middleware;
pub mod proxy;
pub mod routes;
pub mod security;
pub mod text;
