//! Task-tracking service core: password policy and hashing, session tokens,
//! the request access gate, and the task resource lifecycle.
pub mod app_error;
pub mod password;
pub mod jwt;
pub mod task;
pub mod user;
