//! What a link to a device is asked to do, and in which order.

use vstd::prelude::*;

use crate::aap::noise::NoiseMode;

verus! {

/// How long a device is given to process the handshake, in milliseconds.
pub const SETTLE_MILLIS: u64 = 500;

/// The work of bringing a link up, step by step.
#[derive(Debug, Clone, Copy, PartialEq, Eq, Structural)]
pub enum LinkStep {
    /// Open the connection.
    Open,
    /// Send the handshake.
    Handshake,
    /// Wait for [`SETTLE_MILLIS`].
    Settle,
    /// Ask for the battery status.
    RequestBattery,
    /// Ask for the special features.
    EnableFeatures,
    /// Nothing is left to do: the link is up.
    Up,
}

/// The step that a link could not be brought past.
#[derive(Debug, Clone, Copy, PartialEq, Eq, Structural)]
pub enum LinkFailure {
    Open,
    Handshake,
    RequestBattery,
    EnableFeatures,
}

/// What comes after a step that succeeded, or did not. Waiting cannot fail.
pub open spec fn next_step(step: LinkStep, succeeded: bool) -> Result<LinkStep, LinkFailure> {
    match step {
        LinkStep::Open => if succeeded {
            Ok(LinkStep::Handshake)
        } else {
            Err(LinkFailure::Open)
        },
        LinkStep::Handshake => if succeeded {
            Ok(LinkStep::Settle)
        } else {
            Err(LinkFailure::Handshake)
        },
        LinkStep::Settle => Ok(LinkStep::RequestBattery),
        LinkStep::RequestBattery => if succeeded {
            Ok(LinkStep::EnableFeatures)
        } else {
            Err(LinkFailure::RequestBattery)
        },
        LinkStep::EnableFeatures => if succeeded {
            Ok(LinkStep::Up)
        } else {
            Err(LinkFailure::EnableFeatures)
        },
        LinkStep::Up => Ok(LinkStep::Up),
    }
}

/// Where a link is after steps that went as `outcomes` says, starting at `step`.
pub open spec fn after_steps(step: LinkStep, outcomes: Seq<bool>) -> Result<LinkStep, LinkFailure>
    decreases outcomes.len(),
{
    if outcomes.len() == 0 {
        Ok(step)
    } else {
        match next_step(step, outcomes[0]) {
            Ok(next) => after_steps(next, outcomes.drop_first()),
            Err(failure) => Err(failure),
        }
    }
}

impl LinkStep {
    /// The step to take after this one.
    pub fn next(&self, succeeded: bool) -> (res: Result<LinkStep, LinkFailure>)
        ensures
            res == next_step(*self, succeeded),
    {
        match self {
            LinkStep::Open => if succeeded {
                Ok(LinkStep::Handshake)
            } else {
                Err(LinkFailure::Open)
            },
            LinkStep::Handshake => if succeeded {
                Ok(LinkStep::Settle)
            } else {
                Err(LinkFailure::Handshake)
            },
            LinkStep::Settle => Ok(LinkStep::RequestBattery),
            LinkStep::RequestBattery => if succeeded {
                Ok(LinkStep::EnableFeatures)
            } else {
                Err(LinkFailure::RequestBattery)
            },
            LinkStep::EnableFeatures => if succeeded {
                Ok(LinkStep::Up)
            } else {
                Err(LinkFailure::EnableFeatures)
            },
            LinkStep::Up => Ok(LinkStep::Up),
        }
    }
}

impl LinkFailure {
    /// What is said of the failure, before the reason. A connection that does not
    /// open gives its reason alone.
    pub open spec fn spoken(self) -> Option<Seq<char>> {
        match self {
            LinkFailure::Open => None,
            LinkFailure::Handshake => Some("failed to send handshake"@),
            LinkFailure::RequestBattery => Some("failed to request battery"@),
            LinkFailure::EnableFeatures => Some("failed to enable features"@),
        }
    }

    pub fn context(&self) -> (res: Option<&'static str>)
        ensures
            match res {
                Some(text) => self.spoken() == Some(text@),
                None => self.spoken() is None,
            },
    {
        match self {
            LinkFailure::Open => None,
            LinkFailure::Handshake => Some("failed to send handshake"),
            LinkFailure::RequestBattery => Some("failed to request battery"),
            LinkFailure::EnableFeatures => Some("failed to enable features"),
        }
    }
}

/// Bringing a link up takes five steps, each of which must succeed except the
/// wait, which cannot fail: only then is the device recorded as connected.
pub proof fn law_link_needs_every_step(outcomes: Seq<bool>)
    ensures
        after_steps(LinkStep::Open, outcomes) == Ok::<LinkStep, LinkFailure>(LinkStep::Up) <==> {
            &&& outcomes.len() >= 5
            &&& outcomes[0] && outcomes[1] && outcomes[3] && outcomes[4]
        },
{
    reveal_with_fuel(after_steps, 6);
    let rest = outcomes.drop_first();
    if outcomes.len() >= 5 {
        assert(rest[0] == outcomes[1]);
        assert(rest.drop_first()[0] == outcomes[2]);
        assert(rest.drop_first().drop_first()[0] == outcomes[3]);
        assert(rest.drop_first().drop_first().drop_first()[0] == outcomes[4]);
        lemma_up_stays_up(rest.drop_first().drop_first().drop_first().drop_first());
    }
}

proof fn lemma_up_stays_up(outcomes: Seq<bool>)
    ensures
        after_steps(LinkStep::Up, outcomes) == Ok::<LinkStep, LinkFailure>(LinkStep::Up),
    decreases outcomes.len(),
{
    if outcomes.len() > 0 {
        lemma_up_stays_up(outcomes.drop_first());
    }
}

/// One request to the device at the other end of a link.
#[derive(Debug, Clone, Copy, PartialEq, Eq, Structural)]
pub enum DeviceCommand {
    /// Whether Off may be chosen as a listening mode.
    AllowOffListeningMode(bool),
    SetNoiseMode(NoiseMode),
    RequestProximityKeys,
}

/// There is no link to ask anything of.
#[derive(Debug, Clone, Copy, PartialEq, Eq, Structural)]
pub struct NoConnection;

/// What is said when there is no link.
pub open spec fn no_connection_text() -> Seq<char> {
    "no active AAP connection - connect to AirPods first"@
}

impl NoConnection {
    pub fn to_string(&self) -> (res: String)
        ensures
            res@ == no_connection_text(),
    {
        "no active AAP connection - connect to AirPods first".to_owned()
    }
}

impl DeviceCommand {
    /// What is said when the command fails, before the reason.
    pub open spec fn spoken(self) -> Option<Seq<char>> {
        match self {
            DeviceCommand::AllowOffListeningMode(_) => Some(
                "failed to allow Off as a listening mode"@,
            ),
            _ => None,
        }
    }

    pub fn context(&self) -> (res: Option<&'static str>)
        ensures
            match res {
                Some(text) => self.spoken() == Some(text@),
                None => self.spoken() is None,
            },
    {
        match self {
            DeviceCommand::AllowOffListeningMode(_) => Some(
                "failed to allow Off as a listening mode",
            ),
            _ => None,
        }
    }
}

/// The commands that switch a device to `mode`.
pub open spec fn switching_to(mode: NoiseMode) -> Seq<DeviceCommand> {
    if mode == NoiseMode::Off {
        seq![DeviceCommand::AllowOffListeningMode(true), DeviceCommand::SetNoiseMode(mode)]
    } else {
        seq![DeviceCommand::SetNoiseMode(mode)]
    }
}

/// What to send, in order, to switch the connected device's noise control mode.
///
/// Recent firmware treats Off as opt-in: a bare Off command gets an error chime and
/// no mode change. Enabling the setting is a change to the device that outlives the
/// session, so it is sent only when Off is what was asked for.
pub fn plan_noise_control(link_up: bool, mode: NoiseMode) -> (res: Result<
    Vec<DeviceCommand>,
    NoConnection,
>)
    ensures
        match res {
            Ok(commands) => link_up && commands@ == switching_to(mode),
            Err(_) => !link_up,
        },
{
    if !link_up {
        return Err(NoConnection);
    }
    let mut commands: Vec<DeviceCommand> = Vec::new();
    if mode == NoiseMode::Off {
        commands.push(DeviceCommand::AllowOffListeningMode(true));
    }
    commands.push(DeviceCommand::SetNoiseMode(mode));
    assert(commands@ =~= switching_to(mode));
    Ok(commands)
}

/// What to do once the command `sent` of those that switch a device to `mode` has
/// been tried: send the next one, or record the mode when there is none left, or
/// give up on the one that failed.
pub fn after_command(mode: NoiseMode, sent: usize, succeeded: bool) -> (res: Result<
    Option<DeviceCommand>,
    DeviceCommand,
>)
    requires
        sent < switching_to(mode).len(),
    ensures
        match res {
            Err(command) => !succeeded && command == switching_to(mode)[sent as int],
            Ok(Some(command)) => succeeded && sent + 1 < switching_to(mode).len() && command
                == switching_to(mode)[sent + 1],
            Ok(None) => succeeded && sent + 1 == switching_to(mode).len(),
        },
{
    let opt_in: bool = mode == NoiseMode::Off && sent == 0;
    if !succeeded {
        if opt_in {
            return Err(DeviceCommand::AllowOffListeningMode(true));
        }
        return Err(DeviceCommand::SetNoiseMode(mode));
    }
    if opt_in {
        Ok(Some(DeviceCommand::SetNoiseMode(mode)))
    } else {
        Ok(None)
    }
}

/// Why a device was not switched to another mode.
#[derive(Debug, Clone, Copy, PartialEq, Eq, Structural)]
pub enum SwitchFailure {
    NoConnection,
    /// The first command that failed, or was never sent.
    Command(DeviceCommand),
}

/// Whether command `i` is known to have succeeded.
pub open spec fn went_well(outcomes: Seq<bool>, i: int) -> bool {
    i < outcomes.len() && outcomes[i]
}

/// `res` is how switching to `mode` ended, when the commands went as `outcomes`
/// says.
pub open spec fn switching_ends(
    link_up: bool,
    mode: NoiseMode,
    outcomes: Seq<bool>,
    res: Result<(), SwitchFailure>,
) -> bool {
    let commands = switching_to(mode);
    match res {
        Ok(()) => link_up && forall|i: int|
            0 <= i < commands.len() ==> #[trigger] went_well(outcomes, i),
        Err(SwitchFailure::NoConnection) => !link_up,
        Err(SwitchFailure::Command(command)) => link_up && exists|i: int|
            {
                &&& 0 <= i < commands.len()
                &&& command == commands[i]
                &&& !#[trigger] went_well(outcomes, i)
                &&& forall|j: int| 0 <= j < i ==> #[trigger] went_well(outcomes, j)
            },
    }
}

/// How switching to `mode` ended, when the commands went as `outcomes` says.
pub fn switch_result(link_up: bool, mode: NoiseMode, outcomes: &[bool]) -> (res: Result<
    (),
    SwitchFailure,
>)
    ensures
        switching_ends(link_up, mode, outcomes@, res),
{
    match plan_noise_control(link_up, mode) {
        Err(_) => Err(SwitchFailure::NoConnection),
        Ok(commands) => {
            for i in 0..commands.len()
                invariant
                    link_up,
                    commands@ == switching_to(mode),
                    forall|j: int| 0 <= j < i ==> #[trigger] went_well(outcomes@, j),
            {
                if i >= outcomes.len() || !outcomes[i] {
                    assert(!went_well(outcomes@, i as int));
                    return Err(SwitchFailure::Command(commands[i]));
                }
            }
            Ok(())
        },
    }
}

/// What to send to get the device's proximity keys. Requires a link.
pub fn plan_key_request(link_up: bool) -> (res: Result<DeviceCommand, NoConnection>)
    ensures
        match res {
            Ok(command) => link_up && command == DeviceCommand::RequestProximityKeys,
            Err(_) => !link_up,
        },
{
    if link_up {
        Ok(DeviceCommand::RequestProximityKeys)
    } else {
        Err(NoConnection)
    }
}

} // verus!
