//! Horizon IPC: the little-endian wire encoding, the HIPC message headers and
//! buffer descriptors, the CMIF headers, writers and readers of byte
//! streams, service names, and whole request and response messages.

pub mod wire;

pub mod hipc;
pub mod cmif;
pub mod message;
pub mod sm;
pub mod conv;
pub mod control;
