//! Decoder and scan aggregator for Tilt hydrometer BLE advertisements.
//!
//! A Tilt broadcasts an iBeacon-shaped manufacturer record under company
//! identifier 0x004C. The 23-byte payload carries a 16-byte device
//! identifier (one fixed identifier per device colour), a `major` field
//! holding whole degrees Fahrenheit, and a `minor` field holding
//! thousandths of specific gravity. This crate validates and decodes such
//! payloads and aggregates readings over a bounded scan window.

pub mod catalog;
pub mod scan;
pub mod tilt;
