//! Verified core of the Cognito user-pool console: the rules that decide
//! what a request may change, what a sign-in step answers, and how values are
//! escaped, kept apart from the HTTP and AWS plumbing that carries them.

pub mod text;
pub mod order;
pub mod error;
pub mod schema;
pub mod attributes;
pub mod password;
pub mod codec;
pub mod config;
pub mod state;
pub mod handlers;
pub mod mfa;
pub mod static_files;
pub mod locale;
pub mod jwks;
pub mod session;
pub mod extract;
pub mod users;
pub mod aws;
pub mod groups;
pub mod passkey;
