pub mod ascii;
pub mod config;
pub mod conn;
pub mod error;
pub mod headers;
pub mod compression;
pub mod request;
pub mod metrics;
pub mod response;
pub mod router;
