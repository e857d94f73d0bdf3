//! What a BLE advertisement says of the device that sent it.

use vstd::prelude::*;

verus! {

/// One of the two earbuds.
#[derive(Debug, Clone, Copy, PartialEq, Eq, Structural)]
pub enum PodSide {
    Left,
    Right,
}

impl Default for PodSide {
    fn default() -> (res: Self)
        ensures
            res == PodSide::Left,
    {
        PodSide::Left
    }
}

/// A decoded proximity advertisement.
///
/// Levels come in steps of 10 until the encrypted portion has been read with the
/// device's own key; from then on they are exact.
#[derive(Debug)]
pub struct ProximityData {
    pub left_battery: Option<u8>,
    pub right_battery: Option<u8>,
    pub case_battery: Option<u8>,
    pub left_charging: bool,
    pub right_charging: bool,
    pub case_charging: bool,
    pub left_in_ear: bool,
    pub right_in_ear: bool,
    /// Absent while the earbuds are out of the case.
    pub lid_open: Option<bool>,
    pub connection_state: u8,
    pub device_model: u16,
    pub model_name: String,
    pub color: u8,
    pub primary_pod: PodSide,
    /// The part that only the owner's key can read, where there is one.
    pub encrypted_portion: Option<Vec<u8>>,
}

} // verus!
