//! A local threat-detection engine: a packet inspector that dissects raw
//! IP-layer frames into an access verdict, and a file scanner that layers
//! signature, heuristic and entropy analysis over file content and fuses
//! the findings into one confidence-scored result.
//!
//! Confidence values are integers in ten-thousandths (10_000 = 1.0);
//! entropy values are integers in 1/1024 bits per byte (8192 = 8 bits).

pub mod entropy;
pub mod memory;
pub mod packet;
pub mod scanner;
pub mod search;
pub mod signatures;
pub mod threat_ips;
