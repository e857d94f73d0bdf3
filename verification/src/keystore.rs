//! What is done with an encryption key that has just been received.

use vstd::prelude::*;

verus! {

/// The work of saving a key that the state already holds, step by step.
#[derive(Debug, Clone, Copy, PartialEq, Eq, Structural)]
pub enum SaveStep {
    /// Put the key in the key store.
    Cache,
    /// Write the key store to disk.
    Save,
    /// Nothing is left but to tell every consumer of the key.
    Announce,
}

/// What comes after a step that succeeded, or did not: the disk only after a key
/// store that took the key.
pub open spec fn next_save_step(step: SaveStep, succeeded: bool) -> SaveStep {
    if step == SaveStep::Cache && succeeded {
        SaveStep::Save
    } else {
        SaveStep::Announce
    }
}

impl SaveStep {
    /// The step to take after this one. A key store that did not take the key is
    /// not written to disk; whatever fails, the key is announced.
    pub fn next(&self, succeeded: bool) -> (res: SaveStep)
        ensures
            res == next_save_step(*self, succeeded),
    {
        match self {
            SaveStep::Cache => if succeeded {
                SaveStep::Save
            } else {
                SaveStep::Announce
            },
            SaveStep::Save => SaveStep::Announce,
            SaveStep::Announce => SaveStep::Announce,
        }
    }
}

/// `steps` are those that saving a key takes when they go as `outcomes` says, one
/// outcome for each step but the last.
pub open spec fn saves(steps: Seq<SaveStep>, outcomes: Seq<bool>) -> bool {
    &&& steps.len() == outcomes.len() + 1
    &&& steps[0] == SaveStep::Cache
    &&& forall|i: int|
        0 < i < steps.len() ==> #[trigger] steps[i] == next_save_step(steps[i - 1], outcomes[i - 1])
}

/// However saving a key goes, it is announced after two steps at most, and it is
/// written to disk exactly if the key store took it.
pub proof fn law_every_key_is_announced(steps: Seq<SaveStep>, outcomes: Seq<bool>)
    requires
        saves(steps, outcomes),
        outcomes.len() >= 1,
    ensures
        steps[1] == if outcomes[0] {
            SaveStep::Save
        } else {
            SaveStep::Announce
        },
        forall|i: int| 2 <= i < steps.len() ==> #[trigger] steps[i] == SaveStep::Announce,
{
    assert forall|i: int| 2 <= i < steps.len() implies #[trigger] steps[i]
        == SaveStep::Announce by {
        assert(steps[i - 1] == next_save_step(steps[i - 2], outcomes[i - 2]));
    }
}

} // verus!
