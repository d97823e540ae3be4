pub mod auth;
pub mod crypto;
pub mod file;
pub mod gate;
pub mod lua;
pub mod namespace;
pub mod query;
pub mod textmap;
