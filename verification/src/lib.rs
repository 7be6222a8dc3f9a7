pub mod cache;
pub mod http;
pub mod ip;
pub mod text;
pub mod whois;
