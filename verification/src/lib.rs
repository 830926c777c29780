//! The decisions of a treat dispenser: a microcontroller that listens to an MQTT
//! topic and turns a servo once for every treat that is asked for.
//!
//! Nothing in this crate touches the radio, the network or a pin. Each task of the
//! device is a state machine: it names the next thing to be done, the firmware does
//! it and hands back what came of it.

pub mod boot;
pub mod channel;
pub mod count;
pub mod device;
pub mod servo;
pub mod session;
pub mod timing;
pub mod wifi;
