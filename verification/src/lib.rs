//! Proximity-based session locking: the decision logic of the `haraltr`
//! daemon, its configuration model and its wire protocol, with their
//! contracts proved by Verus.

pub mod mac;
pub mod protocol;
pub mod text;
pub mod floatbits;
pub mod config;
pub mod proximity;
pub mod session;
pub mod string_map;
pub mod status;
pub mod devices;
pub mod monitor;
pub mod auth;
pub mod pam;
pub mod sorting;
pub mod bluez;
pub mod json;
pub mod assets;
pub mod seat;
