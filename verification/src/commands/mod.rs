//! What commands and button clicks lead to, and what is answered.

pub mod consent;
pub mod license;
pub mod record;
pub mod respond;
pub mod stop;
