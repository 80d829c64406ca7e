//! Authentication, gated registration and owner-scoped note storage for a
//! small multi-user note service.
pub mod errors;
pub mod text;
pub mod secrets;
pub mod auth;
pub mod users;
pub mod notes;
