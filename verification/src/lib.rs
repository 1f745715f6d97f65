//! A small library behind a private URL fetcher: it normalizes a raw URL
//! string onto a secure scheme, strips tracking query parameters, and decides
//! whether a fetch over plain HTTP may proceed.

pub mod policy;
pub mod query;
pub mod sanitize;
pub mod text;
pub mod urlops;
