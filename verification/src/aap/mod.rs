//! The Apple accessory protocol: what its packets say and what a link to a
//! device is asked to do.

pub mod battery;
pub mod link;
pub mod noise;
