//! Request signing for the EdgeGrid authentication scheme.
//!
//! An [`Authenticator`] holds the credentials of one API client. Given a
//! [`RequestData`] it derives the value of the `Authorization` header that a
//! gateway accepts: a chain of HMAC-SHA256 digests over a canonical,
//! tab-separated rendering of the request.
pub mod ambient;
pub mod auth;
pub mod crypto;
pub mod request;
pub mod text;

pub use auth::Authenticator;
pub use crypto::SignError;
pub use request::RequestData;
