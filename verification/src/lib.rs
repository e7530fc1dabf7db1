//! A batch engine that fetches URLs whose requests vary over a declared
//! parameter space, optionally authenticates first, extracts structured
//! values out of each response via pluggable strategies, and routes each
//! extracted value to storage, further extraction, or a new fetch.

#![verifier::loop_isolation(false)]

pub mod auth;
pub mod decimal;
pub mod errors;
pub mod parser;
pub mod response_adaptor;
pub mod scheduler;
pub mod scraper_iterator;
pub mod scraper_job;
pub mod scraper_unit;
pub mod storage;
pub mod url_parts;
