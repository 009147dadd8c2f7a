//! CPU temperature acquisition: choosing, among the readings that a machine
//! offers, the one that stands for the processor package.
//!
//! Temperatures are fixed-point values in thousandths of a degree Celsius.

pub mod decimal;
pub mod monitor;
pub mod registry;
pub mod temperature;
pub mod text;
pub mod thermal_zone;
pub mod tool;
pub mod tree;
