//! A minimal multi-tenant file hosting core: registration and login,
//! bearer-token authentication, per-user file upload and listing, and a
//! private-to-public visibility state machine gating unauthenticated reads.

pub mod auth;
pub mod catalog;
pub mod errors;
pub mod laws;
pub mod models;
pub mod service;
pub mod storage;
pub mod util;

pub use errors::ApiError;
