use linuxpods::aap::link::{
    after_command, plan_key_request, plan_noise_control, switch_result, DeviceCommand, LinkFailure,
    LinkStep, NoConnection, SwitchFailure, SETTLE_MILLIS,
};
use linuxpods::aap::noise::NoiseMode;
use linuxpods::keystore::SaveStep;

#[test]
fn a_link_comes_up_step_by_step() {
    let mut steps = vec![LinkStep::Open];
    while *steps.last().unwrap() != LinkStep::Up {
        steps.push(steps.last().unwrap().next(true).unwrap());
    }
    assert_eq!(
        steps,
        vec![
            LinkStep::Open,
            LinkStep::Handshake,
            LinkStep::Settle,
            LinkStep::RequestBattery,
            LinkStep::EnableFeatures,
            LinkStep::Up,
        ]
    );
    assert_eq!(SETTLE_MILLIS, 500);
}

#[test]
fn a_failed_step_is_named() {
    assert_eq!(LinkStep::Open.next(false), Err(LinkFailure::Open));
    assert_eq!(LinkStep::Handshake.next(false), Err(LinkFailure::Handshake));
    assert_eq!(LinkStep::Settle.next(false), Ok(LinkStep::RequestBattery));
    assert_eq!(
        LinkStep::RequestBattery.next(false),
        Err(LinkFailure::RequestBattery)
    );
    assert_eq!(
        LinkStep::EnableFeatures.next(false),
        Err(LinkFailure::EnableFeatures)
    );

    assert_eq!(LinkFailure::Open.context(), None);
    assert_eq!(
        LinkFailure::Handshake.context(),
        Some("failed to send handshake")
    );
    assert_eq!(
        LinkFailure::RequestBattery.context(),
        Some("failed to request battery")
    );
    assert_eq!(
        LinkFailure::EnableFeatures.context(),
        Some("failed to enable features")
    );
}

#[test]
fn off_is_allowed_before_it_is_chosen() {
    assert_eq!(
        plan_noise_control(true, NoiseMode::Off),
        Ok(vec![
            DeviceCommand::AllowOffListeningMode(true),
            DeviceCommand::SetNoiseMode(NoiseMode::Off),
        ])
    );
    assert_eq!(
        DeviceCommand::AllowOffListeningMode(true).context(),
        Some("failed to allow Off as a listening mode")
    );
}

#[test]
fn any_other_mode_is_simply_set() {
    for mode in [
        NoiseMode::NoiseCancellation,
        NoiseMode::Transparency,
        NoiseMode::Adaptive,
    ] {
        assert_eq!(
            plan_noise_control(true, mode),
            Ok(vec![DeviceCommand::SetNoiseMode(mode)])
        );
        assert_eq!(DeviceCommand::SetNoiseMode(mode).context(), None);
    }
}

#[test]
fn nothing_is_asked_without_a_link() {
    assert_eq!(
        plan_noise_control(false, NoiseMode::Adaptive),
        Err(NoConnection)
    );
    assert_eq!(plan_key_request(false), Err(NoConnection));
    assert_eq!(
        plan_key_request(true),
        Ok(DeviceCommand::RequestProximityKeys)
    );
    assert_eq!(
        NoConnection.to_string(),
        "no active AAP connection - connect to AirPods first"
    );
}

#[test]
fn each_command_follows_one_that_succeeded() {
    let allow = DeviceCommand::AllowOffListeningMode(true);
    let off = DeviceCommand::SetNoiseMode(NoiseMode::Off);
    let adaptive = DeviceCommand::SetNoiseMode(NoiseMode::Adaptive);
    assert_eq!(after_command(NoiseMode::Off, 0, true), Ok(Some(off)));
    assert_eq!(after_command(NoiseMode::Off, 0, false), Err(allow));
    assert_eq!(after_command(NoiseMode::Off, 1, true), Ok(None));
    assert_eq!(after_command(NoiseMode::Off, 1, false), Err(off));
    assert_eq!(after_command(NoiseMode::Adaptive, 0, true), Ok(None));
    assert_eq!(after_command(NoiseMode::Adaptive, 0, false), Err(adaptive));

    assert_eq!(
        switch_result(true, NoiseMode::Off, &[true, false]),
        Err(SwitchFailure::Command(off))
    );
    assert_eq!(switch_result(true, NoiseMode::Adaptive, &[true]), Ok(()));
}

#[test]
fn a_key_is_saved_only_once_it_is_cached_and_always_announced() {
    assert_eq!(SaveStep::Cache.next(true), SaveStep::Save);
    assert_eq!(SaveStep::Cache.next(false), SaveStep::Announce);
    assert_eq!(SaveStep::Save.next(true), SaveStep::Announce);
    assert_eq!(SaveStep::Save.next(false), SaveStep::Announce);
    assert_eq!(SaveStep::Announce.next(true), SaveStep::Announce);
}
