//! Reverse-DNS scanning of an IPv4 network block: host enumeration,
//! resolver configuration and the lookup bookkeeping, with their contracts.

pub mod error;
pub mod network;
pub mod resolver;
pub mod scan;
pub mod text;
