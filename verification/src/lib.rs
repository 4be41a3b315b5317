//! Discovery and fingerprinting engine for local IPv4 networks.
//!
//! The library holds the verified core of a small network reconnaissance
//! tool: CIDR host enumeration, chunk partitioning for a bounded worker
//! pool, the liveness-probe and port-scan decision logic, service
//! identification, frame decoding for traffic tallies, and interface
//! selection. All network I/O (TCP connects, reverse DNS, packet capture)
//! is left to the surrounding application, which feeds plain observations
//! into these functions.

pub mod addr;
pub mod chunks;
pub mod device;
pub mod hosts;
pub mod ifaces;
pub mod packet;
pub mod ports;
pub mod probe;
pub mod scanner;
pub mod services;
pub mod traffic;
