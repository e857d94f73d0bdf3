//! Active noise control.

use vstd::prelude::*;

verus! {

/// The listening modes a device can be in.
#[derive(Debug, Clone, Copy, PartialEq, Eq, Structural)]
pub enum NoiseMode {
    Off,
    NoiseCancellation,
    Transparency,
    Adaptive,
}

impl View for NoiseMode {
    type V = NoiseMode;

    open spec fn view(&self) -> NoiseMode {
        *self
    }
}

} // verus!
