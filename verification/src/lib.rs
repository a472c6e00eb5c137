//! A verified model of a runtime text-interception pipeline: a foreign
//! string view over a host application's string layout, byte-level text
//! transforms driven by encoding tables, a deduplicating pending-translation
//! gateway, and a registry of interception descriptors grouped into named
//! capability sets.

pub mod bytes;
pub mod foreign_string;
pub mod gateway;
pub mod hooks;
pub mod registry;
pub mod tables;
pub mod transform;
