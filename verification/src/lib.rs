//! Authentication and multi-tenant authorization pipeline for a stateless
//! token-based API: token issuance and verification, request-scoped identity
//! resolution, organisation-membership enforcement, and the ordered
//! middleware chain every protected request passes through.

pub mod applications;
pub mod auth;
pub mod b64;
pub mod claims;
pub mod config;
pub mod cookie;
pub mod decimal;
pub mod headers;
pub mod identity;
pub mod jwt;
pub mod middleware;
pub mod organisations;
pub mod pipeline;
pub mod errors;
pub mod extract;
pub mod response;
pub mod users;
pub mod uuidfmt;
