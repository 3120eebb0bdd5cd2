//! Turning natural-language statements into code through a hosted completion
//! endpoint: a bounded cache of answers, a rate limiter, the request and response
//! decisions of the client, and SQL formatting.
pub mod cache;
pub mod generator;
pub mod limiter;
pub mod model;
pub mod openai;
pub mod sql_formatter;
