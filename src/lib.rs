//! Gates in front of a slow data source: each one consults a cheap local
//! signal and pays for the expensive fetch only when that signal says the
//! fetch may be worth it.

pub mod bloom;
pub mod bucket;
pub mod cache;
pub mod evt;
pub mod sub;
