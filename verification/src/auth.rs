//! Session credentials: signed tokens, cookies, passwords and the identity
//! of the caller.

pub mod cookie;
pub mod password;
pub mod token;
pub mod user_id;
