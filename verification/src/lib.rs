//! Verified core of a Keycloak-to-AWS credential helper.
//!
//! The library covers the logic of the tool: the Keycloak login state
//! machine (response classification and form discovery), the SAML
//! assertion decoder, the STS assume-role request builder and response
//! parser, the per-group refresh orchestration decisions, and the
//! session/credential data model.  All network and terminal I/O lives
//! outside the library, which only computes requests and interprets
//! responses.

pub mod aws;
pub mod config;
pub mod cookies;
pub mod groups;
pub mod keycloak;
pub mod refresh;
pub mod roles;
pub mod update;
pub mod saml;
pub mod text;
