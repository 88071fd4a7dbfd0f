pub mod cache;
pub mod config;
pub mod fetch;
pub mod json;
pub mod rate_limit;
pub mod search;
pub mod social;
pub mod text;
pub mod tools;
pub mod weburl;
