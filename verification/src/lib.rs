//! Event-circle lookup from account display names: filters, row formatting,
//! secret parsing and the account state kept between runs.
pub mod text;
pub mod bootstrap;
pub mod circle;
pub mod twitter;
