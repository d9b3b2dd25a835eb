//! What is stored of a session.

pub mod bundle;
pub mod s3;

pub use bundle::{pseudonymize, ConsentScope};
