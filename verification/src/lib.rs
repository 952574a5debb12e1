//! A closed-loop fan speed controller for a server chassis.
//!
//! The library holds the verified core: the temperature-to-duty transfer
//! curve, the aggregation of sensor readings, the IPMI command sequences the
//! BMC expects, and the per-tick decision of the control loop. Reading the
//! hardware sensors and talking to the BMC device are left to the binary
//! around the library, which hands plain values in and carries byte-level
//! requests out.

pub mod control;
pub mod curve;
pub mod errors;
pub mod ipmi;
pub mod sensors;
