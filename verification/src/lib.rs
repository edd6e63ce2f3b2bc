//! A universal SCADA protocol gateway library.
//!
//! The library unifies heterogeneous industrial fieldbus protocols behind one
//! abstraction: a typed value model with quality codes, per-point addressing
//! with linear transforms, binary decode engines for Modbus registers and
//! J1939 CAN frames, an event router with trigger conditions, and a channel
//! factory driven by declarative configuration.
//!
//! All analog values are carried as exact rational numbers, so every decode,
//! transform and trigger decision has a precise mathematical meaning.

pub mod rat;
pub mod quality;
pub mod data;
pub mod error;
pub mod state;
pub mod point;
pub mod codec;
pub mod address;
pub mod j1939;
pub mod j1939_table;
pub mod router;
pub mod modbus;
pub mod virtual_channel;
pub mod gpio;
pub mod config;
pub mod factory;
