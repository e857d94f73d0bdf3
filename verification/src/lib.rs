//! Battery, charging and noise control state of AirPods, gathered from two
//! sources and handed to every consumer that asks for it.

pub mod aap;
pub mod ble;
pub mod channel;
pub mod coordinator;
mod fresh;
pub mod inner;
pub mod keystore;
pub mod laws;
pub mod mac_map;
pub mod operation_laws;
pub mod packet_laws;
pub mod podstate;
pub mod probe;
pub mod state_laws;
pub mod subscribers;
pub mod text;
