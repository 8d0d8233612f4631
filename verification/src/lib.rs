//! Verified core of a controller for an antenna rotator.
//!
//! The controller takes target angles over a serial command port or from two
//! potentiometers, sends them to the rotator in numbered and checksummed radio packets,
//! and shows what the rotator reports on a small display. This crate holds the rules:
//!
//! - [`easycom`]: the command port, from received bytes to answers;
//! - [`link`]: the radio task, one step for each thing that happens outside;
//! - [`protocol`], [`wire`], [`checksum`]: the packets of the radio link;
//! - [`manual`]: the potentiometers and the switch that puts them in charge;
//! - [`seed`]: the number from which packets are counted;
//! - [`renderer`], [`screen`]: text on the display, and where it stands;
//! - [`context`], [`angle`], [`relays`]: the state that the tasks share;
//! - [`buffers`]: fixed-size byte buffers.
pub mod angle;
pub mod buffers;
pub mod checksum;
pub mod context;
pub mod easycom;
pub mod link;
pub mod manual;
pub mod protocol;
pub mod relays;
pub mod renderer;
pub mod screen;
pub mod seed;
pub mod wire;
