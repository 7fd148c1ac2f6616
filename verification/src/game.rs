//! Records of the structures of the host that the tool looks at.
//!
//! A record holds the fields of a structure as plain values. Where the
//! structure holds a pointer or a reference, the record holds the address.

pub mod cs;
pub mod dl;
pub mod fd4;
pub mod world_area_time;
