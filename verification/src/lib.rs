//! Value generation and frame composition for DMX512 stage lighting.
//!
//! The crate turns authored envelopes into channel bytes, merges the bytes of
//! all devices into one universe, and decides what a relay does with each
//! frame it receives. All quantities are fixed-point integers.

pub mod channel;
pub mod curve_facts;
pub mod dmx_device;
pub mod dmx_gui;
pub mod message;
pub mod relay;
pub mod rig;
pub mod sorting;
pub mod timeline;
pub mod universe;
