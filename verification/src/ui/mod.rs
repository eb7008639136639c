//! The layout editor's service: a deliberately tiny HTTP server.
//!
//! It serves one page, which arranges machines by drag and drop and posts the resulting
//! edge links; those are written to the configuration, and a running host picks up the
//! new layout within seconds.
pub mod api;
pub mod http;
pub mod live;
pub mod mirror;
pub mod net;
pub mod route;
pub mod state;
