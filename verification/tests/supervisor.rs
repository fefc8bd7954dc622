use lgtv_controller::command::intake_line;
use lgtv_controller::supervisor::{
    ClientCall, Config, ConnectOutcome, DispatchPlan, Event, QueryOutcome, ScriptStep, StepInputs,
    Supervisor,
};
use lgtv_controller::volume::step_target;

fn config() -> Config {
    Config {
        target_mac: "3c:f0:83:9e:6a:2c".to_string(),
        target_audio_device: "LG Monitor".to_string(),
        disconnected_wait_secs: 5,
        connected_wait_secs: 3600,
    }
}

const LISTING: &str = "? (192.168.1.42) at 3c:f0:83:9e:6a:2c on en0 ifscope [ethernet]\n";

fn idle_inputs() -> StepInputs {
    StepInputs {
        neighbour_listing: None,
        stored_key: None,
        connect: ConnectOutcome::Failed,
        gate_report: None,
        query: QueryOutcome::CallFailed,
    }
}

fn connected_supervisor() -> Supervisor {
    let mut sup = Supervisor::new(config());
    let inputs = StepInputs {
        neighbour_listing: Some(LISTING.to_string()),
        stored_key: Some("cachedkey".to_string()),
        connect: ConnectOutcome::Accepted { yielded_key: Some("cachedkey".to_string()) },
        gate_report: None,
        query: QueryOutcome::CallFailed,
    };
    let out = sup.step(&Event::Tick, &inputs);
    assert!(sup.connected);
    assert!(out.persist.is_none());
    sup
}

fn active_gate() -> Option<String> {
    Some("LG Monitor\n".to_string())
}

#[test]
fn volume_steps_are_clamped_at_the_boundaries() {
    assert_eq!(step_target(0, false), 0);
    assert_eq!(step_target(100, true), 100);
    assert_eq!(step_target(50, true), 51);
    assert_eq!(step_target(50, false), 49);
    assert_eq!(step_target(-7, true), 0);
    assert_eq!(step_target(250, false), 100);
}

#[test]
fn commands_are_dispatched_in_arrival_order() {
    let mut sup = connected_supervisor();
    let mut inputs = idle_inputs();
    inputs.gate_report = active_gate();
    inputs.query = QueryOutcome::Volume(50);
    let script = vec![
        ScriptStep { event: Event::Command("volume_up".to_string()), inputs },
        ScriptStep {
            event: Event::Command("mute".to_string()),
            inputs: StepInputs { gate_report: active_gate(), ..idle_inputs() },
        },
        ScriptStep {
            event: Event::Command("volume_down".to_string()),
            inputs: StepInputs {
                gate_report: active_gate(),
                query: QueryOutcome::Volume(51),
                ..idle_inputs()
            },
        },
    ];
    let trace = sup.run_script(&script);
    assert_eq!(
        trace.calls,
        vec![
            ClientCall::GetVolume,
            ClientCall::SetVolume(51),
            ClientCall::SetMute(true),
            ClientCall::GetVolume,
            ClientCall::SetVolume(50),
        ]
    );
    assert!(!trace.exited);
    assert!(sup.connected);
}

#[test]
fn inactive_gate_suppresses_audio_commands() {
    for cmd in ["volume_up", "volume_down", "mute", "unmute"] {
        let mut sup = connected_supervisor();
        let mut inputs = idle_inputs();
        inputs.gate_report = Some("MacBook Pro Speakers".to_string());
        inputs.query = QueryOutcome::Volume(50);
        let out = sup.step(&Event::Command(cmd.to_string()), &inputs);
        assert_eq!(out.calls, vec![], "command {} must be suppressed", cmd);
        assert!(sup.connected, "suppression must not touch the session");
    }
}

#[test]
fn other_tokens_are_noops_whatever_the_gate_says() {
    for report in [None, Some("LG Monitor".to_string())] {
        let mut sup = connected_supervisor();
        let mut inputs = idle_inputs();
        inputs.gate_report = report;
        inputs.query = QueryOutcome::Volume(50);
        let out = sup.step(&Event::Command("power_off".to_string()), &inputs);
        assert_eq!(out.calls, vec![]);
        assert!(sup.connected);
    }
}

#[test]
fn probe_failure_forces_a_fresh_connect() {
    let mut sup = connected_supervisor();
    let mut inputs = idle_inputs();
    inputs.gate_report = active_gate();
    inputs.query = QueryOutcome::CallFailed;
    let out = sup.step(&Event::Command("volume_up".to_string()), &inputs);
    assert_eq!(out.calls, vec![ClientCall::GetVolume]);
    assert!(!sup.connected, "a failed probe must invalidate the session");

    let mut next = idle_inputs();
    next.neighbour_listing = Some(LISTING.to_string());
    next.connect = ConnectOutcome::Accepted { yielded_key: None };
    let out2 = sup.step(&Event::Tick, &next);
    let req = out2.connect_attempt.expect("the next resolvable iteration must reconnect");
    assert_eq!(req.url, "ws://192.168.1.42:3000/");
    assert_eq!(req.key, None);
    assert!(sup.connected);
}

#[test]
fn write_failures_are_swallowed() {
    // A probe that answers but a set call that fails leaves the session
    // alone; the model treats the set call as fire-and-forget, so only the
    // probe outcome matters.
    let mut sup = connected_supervisor();
    let mut inputs = idle_inputs();
    inputs.gate_report = active_gate();
    inputs.query = QueryOutcome::NoVolume;
    let out = sup.step(&Event::Command("volume_up".to_string()), &inputs);
    assert_eq!(out.calls, vec![ClientCall::GetVolume]);
    assert!(sup.connected);
}

#[test]
fn changed_credential_is_persisted_trimmed() {
    let mut sup = Supervisor::new(config());
    let inputs = StepInputs {
        neighbour_listing: Some(LISTING.to_string()),
        stored_key: Some(" oldkey \n".to_string()),
        connect: ConnectOutcome::Accepted { yielded_key: Some(" newkey \n".to_string()) },
        gate_report: None,
        query: QueryOutcome::CallFailed,
    };
    let out = sup.step(&Event::Tick, &inputs);
    assert_eq!(out.persist, Some("newkey".to_string()));
    let req = out.connect_attempt.unwrap();
    assert_eq!(req.key, Some("oldkey".to_string()));
}

#[test]
fn unchanged_credential_is_not_rewritten() {
    let mut sup = Supervisor::new(config());
    let inputs = StepInputs {
        neighbour_listing: Some(LISTING.to_string()),
        stored_key: Some(" samekey ".to_string()),
        connect: ConnectOutcome::Accepted { yielded_key: Some("samekey\n".to_string()) },
        gate_report: None,
        query: QueryOutcome::CallFailed,
    };
    let out = sup.step(&Event::Tick, &inputs);
    assert_eq!(out.persist, None);
}

#[test]
fn first_credential_is_persisted_when_nothing_was_cached() {
    let mut sup = Supervisor::new(config());
    let inputs = StepInputs {
        neighbour_listing: Some(LISTING.to_string()),
        stored_key: None,
        connect: ConnectOutcome::Accepted { yielded_key: Some("freshkey".to_string()) },
        gate_report: None,
        query: QueryOutcome::CallFailed,
    };
    let out = sup.step(&Event::Tick, &inputs);
    assert_eq!(out.persist, Some("freshkey".to_string()));
}

#[test]
fn unresolvable_address_stays_disconnected_and_silent() {
    let mut sup = Supervisor::new(config());
    let script = vec![
        ScriptStep { event: Event::Tick, inputs: idle_inputs() },
        ScriptStep { event: Event::Command("volume_up".to_string()), inputs: idle_inputs() },
        ScriptStep { event: Event::Tick, inputs: idle_inputs() },
    ];
    let trace = sup.run_script(&script);
    assert_eq!(trace.calls, vec![]);
    assert!(trace.connects.is_empty());
    assert!(!sup.connected);
    assert_eq!(sup.wait_secs(), 5, "resolution is retried on the short timer");
}

#[test]
fn wait_interval_follows_the_connection_state() {
    let mut sup = Supervisor::new(config());
    assert_eq!(sup.wait_secs(), 5);
    sup = connected_supervisor();
    assert_eq!(sup.wait_secs(), 3600);
}

#[test]
fn closed_channel_ends_the_run() {
    let mut sup = connected_supervisor();
    let script = vec![
        ScriptStep { event: Event::Closed, inputs: idle_inputs() },
        ScriptStep {
            event: Event::Command("mute".to_string()),
            inputs: StepInputs { gate_report: active_gate(), ..idle_inputs() },
        },
    ];
    let trace = sup.run_script(&script);
    assert!(trace.exited);
    assert_eq!(trace.calls, vec![], "nothing after the close is processed");
}

#[test]
fn end_to_end_volume_up_then_gated_mute() {
    // The raw line arrives on the channel, is trimmed and queued; the
    // helper names the appliance as active and the probe answers 50:
    // exactly one set-volume call with 51.
    let cmd = intake_line("volume_up\n").expect("line must be queued");
    let mut sup = connected_supervisor();
    let mut inputs = idle_inputs();
    inputs.gate_report = active_gate();
    inputs.query = QueryOutcome::Volume(50);
    let trace = sup.run_script(&vec![ScriptStep { event: Event::Command(cmd), inputs }]);
    assert_eq!(trace.calls, vec![ClientCall::GetVolume, ClientCall::SetVolume(51)]);

    // And a mute while the oracle reports some other device: zero calls.
    let cmd2 = intake_line("mute\n").expect("line must be queued");
    let mut inputs2 = idle_inputs();
    inputs2.gate_report = Some("MacBook Pro Speakers".to_string());
    let trace2 = sup.run_script(&vec![ScriptStep { event: Event::Command(cmd2), inputs: inputs2 }]);
    assert_eq!(trace2.calls, vec![]);
}

#[test]
fn commands_while_disconnected_are_dropped() {
    let mut sup = Supervisor::new(config());
    let mut inputs = idle_inputs();
    inputs.gate_report = active_gate();
    inputs.query = QueryOutcome::Volume(50);
    let out = sup.step(&Event::Command("volume_up".to_string()), &inputs);
    assert_eq!(out.calls, vec![]);
    assert!(!sup.connected);
}

#[test]
fn dispatch_plan_follows_gate_and_state() {
    let sup = connected_supervisor();
    assert_eq!(sup.dispatch_plan("volume_up", &active_gate()), DispatchPlan::Probe { up: true });
    assert_eq!(sup.dispatch_plan("volume_down", &active_gate()), DispatchPlan::Probe { up: false });
    assert_eq!(
        sup.dispatch_plan("mute", &active_gate()),
        DispatchPlan::Write { call: ClientCall::SetMute(true) }
    );
    assert_eq!(
        sup.dispatch_plan("unmute", &active_gate()),
        DispatchPlan::Write { call: ClientCall::SetMute(false) }
    );
    assert_eq!(sup.dispatch_plan("volume_up", &None), DispatchPlan::Suppressed);
    assert_eq!(sup.dispatch_plan("hello", &None), DispatchPlan::NoOp);
    let idle = Supervisor::new(config());
    assert_eq!(idle.dispatch_plan("mute", &active_gate()), DispatchPlan::Offline);
}

#[test]
fn probe_result_clamps_and_invalidates() {
    let mut sup = connected_supervisor();
    assert_eq!(
        sup.probe_result(true, QueryOutcome::Volume(50)),
        Some(ClientCall::SetVolume(51))
    );
    assert!(sup.connected);
    assert_eq!(sup.probe_result(false, QueryOutcome::Volume(0)), Some(ClientCall::SetVolume(0)));
    assert_eq!(sup.probe_result(true, QueryOutcome::Volume(100)), Some(ClientCall::SetVolume(100)));
    assert_eq!(sup.probe_result(true, QueryOutcome::NoVolume), None);
    assert!(sup.connected);
    assert_eq!(sup.probe_result(true, QueryOutcome::CallFailed), None);
    assert!(!sup.connected);
}

#[test]
fn connect_request_carries_url_and_trimmed_key() {
    let sup = Supervisor::new(config());
    let inputs = StepInputs {
        neighbour_listing: Some(LISTING.to_string()),
        stored_key: Some("  thekey \n".to_string()),
        connect: ConnectOutcome::Failed,
        gate_report: None,
        query: QueryOutcome::CallFailed,
    };
    let req = sup.connect_request(&inputs).expect("address resolves");
    assert_eq!(req.url, "ws://192.168.1.42:3000/");
    assert_eq!(req.key, Some("thekey".to_string()));
    assert!(sup.connect_request(&idle_inputs()).is_none());
    let connected = connected_supervisor();
    assert!(connected.connect_request(&inputs).is_none(), "no connect while connected");
}

#[test]
fn run_trace_records_connects_and_persists() {
    let mut sup = Supervisor::new(config());
    let connecting = StepInputs {
        neighbour_listing: Some(LISTING.to_string()),
        stored_key: None,
        connect: ConnectOutcome::Accepted { yielded_key: Some("freshkey\n".to_string()) },
        gate_report: None,
        query: QueryOutcome::CallFailed,
    };
    let script = vec![
        ScriptStep { event: Event::Tick, inputs: connecting },
        ScriptStep {
            event: Event::Command("unmute".to_string()),
            inputs: StepInputs { gate_report: active_gate(), ..idle_inputs() },
        },
    ];
    let trace = sup.run_script(&script);
    assert_eq!(trace.persists, vec!["freshkey".to_string()]);
    assert_eq!(trace.connects.len(), 1);
    assert_eq!(trace.connects[0].url, "ws://192.168.1.42:3000/");
    assert_eq!(trace.connects[0].key, None);
    assert_eq!(trace.calls, vec![ClientCall::SetMute(false)]);
    assert!(!trace.exited);
}
