//! The connection supervisor: the decision core of the daemon.
//!
//! The supervisor is a two-state machine — Disconnected or Connected — fed
//! one iteration at a time.  Each iteration sees what the collaborators
//! reported (the neighbour listing, the stored credential, the connect
//! outcome, the audio helper's output, the volume probe's outcome) together
//! with one event from the command channel, and decides everything the
//! daemon does: whether to attempt a connect and with which URL and
//! credential, whether to persist a newly yielded credential, which session
//! calls to make for a command, whether a failed probe forces a reconnect,
//! and whether to terminate.  The surrounding loop only performs these
//! decisions; every choice is made, and specified, here.

use vstd::prelude::*;
use crate::command::{
    CommandKind, spec_kind_of, kind_of, spec_suppressed, spec_gate_active, gate_active,
};
use crate::resolver::{resolve_spec, resolve_ip};
use crate::text::{trim_spec, trim_str, str_eq};
use crate::volume::{clamp_volume, step_target};

verus! {

/// Deployment parameters: which appliance to track, which audio device
/// name gates the audio commands, and how long the loop waits for a
/// command in each state.
pub struct Config {
    pub target_mac: String,
    pub target_audio_device: String,
    pub disconnected_wait_secs: u64,
    pub connected_wait_secs: u64,
}

/// One typed call to the session client.
#[derive(Clone, Copy, Debug, PartialEq, Eq, Structural)]
pub enum ClientCall {
    GetVolume,
    SetVolume(i8),
    SetMute(bool),
}

/// How a connect attempt ended, including the credential the session
/// yielded on success.
pub enum ConnectOutcome {
    Failed,
    Accepted { yielded_key: Option<String> },
}

/// How the volume probe ended: the call itself failed, it answered without
/// a usable volume, or it reported a level.
#[derive(Clone, Copy, Debug, PartialEq, Eq, Structural)]
pub enum QueryOutcome {
    CallFailed,
    NoVolume,
    Volume(i64),
}

/// What the loop gathered from the collaborators for one iteration.  A
/// `None` listing means the neighbour command itself failed; a `None` gate
/// report means the helper is missing or failed, which conservatively
/// counts as "not active".
pub struct StepInputs {
    pub neighbour_listing: Option<String>,
    pub stored_key: Option<String>,
    pub connect: ConnectOutcome,
    pub gate_report: Option<String>,
    pub query: QueryOutcome,
}

/// One event from the command channel: a timeout, a queued command, or the
/// channel closing for good.
pub enum Event {
    Tick,
    Command(String),
    Closed,
}

/// A connect attempt the supervisor asks for: the endpoint URL and the
/// cached credential to present.
pub struct ConnectRequest {
    pub url: String,
    pub key: Option<String>,
}

/// Everything one iteration asks the loop to do.
pub struct StepOutput {
    pub connect_attempt: Option<ConnectRequest>,
    pub persist: Option<String>,
    pub calls: Vec<ClientCall>,
    pub exit: bool,
}

/// View of an optional owned string.
pub open spec fn opt_str_view(o: Option<String>) -> Option<Seq<char>> {
    match o {
        Option::None => Option::None,
        Option::Some(s) => Option::Some(s@),
    }
}

/// View of an optional connect request.
pub open spec fn view_connect(o: Option<ConnectRequest>) -> Option<(Seq<char>, Option<Seq<char>>)> {
    match o {
        Option::None => Option::None,
        Option::Some(r) => Option::Some((r.url@, opt_str_view(r.key))),
    }
}

/// The address the iteration's neighbour listing resolves to, if any.
pub open spec fn spec_resolved(cfg: Config, inp: StepInputs) -> Option<Seq<char>> {
    match inp.neighbour_listing {
        Option::None => Option::None,
        Option::Some(l) => resolve_spec(l@, cfg.target_mac@),
    }
}

/// The credential loaded for a connect attempt: the stored file contents,
/// trimmed.
pub open spec fn spec_cached_key(inp: StepInputs) -> Option<Seq<char>> {
    match inp.stored_key {
        Option::None => Option::None,
        Option::Some(k) => Option::Some(trim_spec(k@)),
    }
}

/// The session endpoint for a resolved address.
pub open spec fn url_of(ip: Seq<char>) -> Seq<char> {
    "ws://"@ + ip + ":3000/"@
}

/// The connect request an iteration issues: only when Disconnected and
/// only when an address resolved.
pub open spec fn spec_connect_request(s: bool, cfg: Config, inp: StepInputs) -> Option<
    (Seq<char>, Option<Seq<char>>),
> {
    if s {
        Option::None
    } else {
        match spec_resolved(cfg, inp) {
            Option::None => Option::None,
            Option::Some(ip) => Option::Some((url_of(ip), spec_cached_key(inp))),
        }
    }
}

/// The connection state after the iteration's reconnect phase: Connected
/// survives, and Disconnected becomes Connected exactly when an address
/// resolved and the connect attempt was accepted.
pub open spec fn spec_connected_after_attempt(s: bool, cfg: Config, inp: StepInputs) -> bool {
    s || (spec_resolved(cfg, inp) is Some && inp.connect is Accepted)
}

/// The credential an iteration persists: on a fresh, accepted connect whose
/// yielded credential, trimmed, differs from the cached one.  Nothing is
/// written when they agree, or when no credential was yielded.
pub open spec fn spec_persist(s: bool, cfg: Config, inp: StepInputs) -> Option<Seq<char>> {
    if s {
        Option::None
    } else {
        match spec_resolved(cfg, inp) {
            Option::None => Option::None,
            Option::Some(_ip) => match inp.connect {
                ConnectOutcome::Failed => Option::None,
                ConnectOutcome::Accepted { yielded_key } => match yielded_key {
                    Option::None => Option::None,
                    Option::Some(k) => if spec_cached_key(inp) == Option::Some(trim_spec(k@)) {
                        Option::None
                    } else {
                        Option::Some(trim_spec(k@))
                    },
                },
            },
        }
    }
}

/// Whether the iteration's gate report makes the appliance the active
/// audio sink.
pub open spec fn spec_active(cfg: Config, inp: StepInputs) -> bool {
    spec_gate_active(opt_str_view(inp.gate_report), cfg.target_audio_device@)
}

/// Whether handling a command of kind `k` hit the probe failure that
/// invalidates the session: only the volume probe may signal it.
pub open spec fn spec_probe_failed(k: CommandKind, q: QueryOutcome) -> bool {
    (k == CommandKind::VolumeUp || k == CommandKind::VolumeDown) && q is CallFailed
}

/// The session calls a dispatched command of kind `k` produces.  A volume
/// step probes the level first and, if the probe answers one, sets the
/// clamped neighbour; mute and unmute are single writes; anything else is
/// a no-op.
pub open spec fn spec_dispatch_calls(k: CommandKind, q: QueryOutcome) -> Seq<ClientCall> {
    match k {
        CommandKind::VolumeUp => match q {
            QueryOutcome::Volume(v) => seq![
                ClientCall::GetVolume,
                ClientCall::SetVolume(clamp_volume(v + 1) as i8),
            ],
            _ => seq![ClientCall::GetVolume],
        },
        CommandKind::VolumeDown => match q {
            QueryOutcome::Volume(v) => seq![
                ClientCall::GetVolume,
                ClientCall::SetVolume(clamp_volume(v - 1) as i8),
            ],
            _ => seq![ClientCall::GetVolume],
        },
        CommandKind::Mute => seq![ClientCall::SetMute(true)],
        CommandKind::Unmute => seq![ClientCall::SetMute(false)],
        CommandKind::Other => Seq::empty(),
    }
}

/// The session calls one whole iteration produces: only a command event
/// that is neither suppressed by the audio gate nor received while
/// Disconnected is dispatched.
pub open spec fn spec_step_calls(s: bool, cfg: Config, event: Event, inp: StepInputs) -> Seq<
    ClientCall,
> {
    match event {
        Event::Command(cmd) => {
            let k = spec_kind_of(cmd@);
            if spec_suppressed(k, spec_active(cfg, inp)) {
                Seq::empty()
            } else if spec_connected_after_attempt(s, cfg, inp) {
                spec_dispatch_calls(k, inp.query)
            } else {
                Seq::empty()
            }
        },
        _ => Seq::empty(),
    }
}

/// The connection state after one whole iteration: the state after the
/// reconnect phase, invalidated again if a dispatched volume probe failed.
pub open spec fn spec_step_state(s: bool, cfg: Config, event: Event, inp: StepInputs) -> bool {
    let s1 = spec_connected_after_attempt(s, cfg, inp);
    match event {
        Event::Command(cmd) => {
            let k = spec_kind_of(cmd@);
            if spec_suppressed(k, spec_active(cfg, inp)) {
                s1
            } else if s1 && spec_probe_failed(k, inp.query) {
                false
            } else {
                s1
            }
        },
        _ => s1,
    }
}

/// The supervisor terminates exactly when the command channel closes.
pub open spec fn spec_step_exit(event: Event) -> bool {
    event is Closed
}

/// What the supervisor decides to do with one received command.
#[derive(Clone, Copy, Debug, PartialEq, Eq, Structural)]
pub enum DispatchPlan {
    /// An audio-affecting command while the appliance is not the active
    /// sink: silently discarded.
    Suppressed,
    /// A command received while Disconnected: dropped.
    Offline,
    /// A volume step: probe the level first, then set its clamped
    /// neighbour.
    Probe { up: bool },
    /// A single fire-and-forget call.
    Write { call: ClientCall },
    /// An unrecognised token: accepted, nothing to do.
    NoOp,
}

/// The supervisor: its deployment parameters and whether a live session is
/// currently held.  The session handle itself lives with the loop; the
/// supervisor's state says whether one exists.
pub struct Supervisor {
    pub config: Config,
    pub connected: bool,
}

fn build_url(ip: &str) -> (u: String)
    ensures
        u@ == url_of(ip@),
{
    let mut u = "ws://".to_owned();
    u.append(ip);
    u.append(":3000/");
    proof {
        assert(u@ =~= url_of(ip@));
    }
    u
}

impl Supervisor {
    /// A fresh supervisor starts Disconnected.
    pub fn new(config: Config) -> (s: Self)
        ensures
            s.config == config,
            !s.connected,
    {
        Supervisor { config, connected: false }
    }

    /// How long the loop should wait for the next command: briefly while
    /// Disconnected, so address resolution is retried on a timer, and
    /// nearly unbounded while Connected.
    pub fn wait_secs(&self) -> (w: u64)
        ensures
            w == if self.connected {
                self.config.connected_wait_secs
            } else {
                self.config.disconnected_wait_secs
            },
    {
        if self.connected {
            self.config.connected_wait_secs
        } else {
            self.config.disconnected_wait_secs
        }
    }

    /// The connect request this iteration issues, if any: only while
    /// Disconnected, and only when the iteration's neighbour listing
    /// resolves the target's address.  The request carries the session
    /// endpoint for the resolved address and the stored credential,
    /// trimmed.
    pub fn connect_request(&self, inputs: &StepInputs) -> (r: Option<ConnectRequest>)
        ensures
            view_connect(r) == spec_connect_request(self.connected, self.config, *inputs),
    {
        if self.connected {
            return None;
        }
        let resolved = match &inputs.neighbour_listing {
            None => None,
            Some(listing) => resolve_ip(listing.as_str(), self.config.target_mac.as_str()),
        };
        match resolved {
            None => None,
            Some(ip) => {
                let cached: Option<String> = match &inputs.stored_key {
                    None => None,
                    Some(k) => Some(trim_str(k.as_str()).to_owned()),
                };
                let url = build_url(ip.as_str());
                Some(ConnectRequest { url, key: cached })
            },
        }
    }

    /// Record how the iteration's connect phase ended: Connected exactly
    /// when an address resolved and the attempt was accepted.  Returns the
    /// credential to persist — the yielded credential, trimmed, when it
    /// differs from the cached one.
    pub fn complete_connect(&mut self, inputs: &StepInputs) -> (persist: Option<String>)
        ensures
            final(self).config == old(self).config,
            final(self).connected == spec_connected_after_attempt(
                old(self).connected,
                old(self).config,
                *inputs,
            ),
            opt_str_view(persist) == spec_persist(old(self).connected, old(self).config, *inputs),
    {
        let mut persist: Option<String> = None;
        if !self.connected {
            let resolved = match &inputs.neighbour_listing {
                None => None,
                Some(listing) => resolve_ip(listing.as_str(), self.config.target_mac.as_str()),
            };
            if let Some(_ip) = resolved {
                match &inputs.connect {
                    ConnectOutcome::Failed => {},
                    ConnectOutcome::Accepted { yielded_key } => {
                        self.connected = true;
                        if let Some(k) = yielded_key {
                            let kt = trim_str(k.as_str()).to_owned();
                            let same = match &inputs.stored_key {
                                None => false,
                                Some(c) => str_eq(trim_str(c.as_str()), kt.as_str()),
                            };
                            if !same {
                                persist = Some(kt);
                            }
                        }
                    },
                }
            }
        }
        persist
    }

    /// Decide what to do with one received command: suppress it, drop it
    /// while Disconnected, probe-and-set for a volume step, a single write
    /// for mute and unmute, nothing for an unrecognised token.
    pub fn dispatch_plan(&self, cmd: &str, gate_report: &Option<String>) -> (d: DispatchPlan)
        ensures
            ({
                let k = spec_kind_of(cmd@);
                let active = spec_gate_active(
                    opt_str_view(*gate_report),
                    self.config.target_audio_device@,
                );
                if spec_suppressed(k, active) {
                    d == DispatchPlan::Suppressed
                } else if !self.connected {
                    d == DispatchPlan::Offline
                } else {
                    match k {
                        CommandKind::VolumeUp => d == (DispatchPlan::Probe { up: true }),
                        CommandKind::VolumeDown => d == (DispatchPlan::Probe { up: false }),
                        CommandKind::Mute => d == (DispatchPlan::Write {
                            call: ClientCall::SetMute(true),
                        }),
                        CommandKind::Unmute => d == (DispatchPlan::Write {
                            call: ClientCall::SetMute(false),
                        }),
                        CommandKind::Other => d == DispatchPlan::NoOp,
                    }
                }
            }),
    {
        let k = kind_of(cmd);
        let active = gate_active(gate_report, self.config.target_audio_device.as_str());
        if !active && !(k == CommandKind::Other) {
            DispatchPlan::Suppressed
        } else if !self.connected {
            DispatchPlan::Offline
        } else {
            match k {
                CommandKind::VolumeUp => DispatchPlan::Probe { up: true },
                CommandKind::VolumeDown => DispatchPlan::Probe { up: false },
                CommandKind::Mute => DispatchPlan::Write { call: ClientCall::SetMute(true) },
                CommandKind::Unmute => DispatchPlan::Write { call: ClientCall::SetMute(false) },
                CommandKind::Other => DispatchPlan::NoOp,
            }
        }
    }

    /// Record how a volume probe ended.  A failed probe invalidates the
    /// session — the supervisor ends Disconnected — and nothing follows; a
    /// reported level yields the set-volume call with the clamped
    /// neighbour; an answer without a level swallows the command.
    pub fn probe_result(&mut self, up: bool, q: QueryOutcome) -> (follow: Option<ClientCall>)
        requires
            old(self).connected,
        ensures
            final(self).config == old(self).config,
            final(self).connected == !(q is CallFailed),
            follow == match q {
                QueryOutcome::CallFailed => Option::<ClientCall>::None,
                QueryOutcome::NoVolume => Option::<ClientCall>::None,
                QueryOutcome::Volume(v) => Option::Some(
                    ClientCall::SetVolume(
                        clamp_volume(v + (if up { 1int } else { -1int })) as i8,
                    ),
                ),
            },
    {
        match q {
            QueryOutcome::CallFailed => {
                self.connected = false;
                None
            },
            QueryOutcome::NoVolume => None,
            QueryOutcome::Volume(v) => Some(ClientCall::SetVolume(step_target(v, up))),
        }
    }

    /// One supervisor iteration: the reconnect phase, then the handling of
    /// one event, exactly as the specification functions describe them.
    pub fn step(&mut self, event: &Event, inputs: &StepInputs) -> (out: StepOutput)
        ensures
            final(self).config == old(self).config,
            final(self).connected == spec_step_state(
                old(self).connected,
                old(self).config,
                *event,
                *inputs,
            ),
            out.calls@ == spec_step_calls(old(self).connected, old(self).config, *event, *inputs),
            view_connect(out.connect_attempt) == spec_connect_request(
                old(self).connected,
                old(self).config,
                *inputs,
            ),
            opt_str_view(out.persist) == spec_persist(
                old(self).connected,
                old(self).config,
                *inputs,
            ),
            out.exit == spec_step_exit(*event),
    {
        let mut calls: Vec<ClientCall> = Vec::new();
        let mut exit = false;

        let connect_attempt = self.connect_request(inputs);
        let persist = self.complete_connect(inputs);

        match event {
            Event::Tick => {},
            Event::Closed => {
                exit = true;
            },
            Event::Command(cmd) => {
                match self.dispatch_plan(cmd.as_str(), &inputs.gate_report) {
                    DispatchPlan::Suppressed => {},
                    DispatchPlan::Offline => {},
                    DispatchPlan::Probe { up } => {
                        calls.push(ClientCall::GetVolume);
                        if let Some(follow) = self.probe_result(up, inputs.query) {
                            calls.push(follow);
                        }
                    },
                    DispatchPlan::Write { call } => {
                        calls.push(call);
                    },
                    DispatchPlan::NoOp => {},
                }
                proof {
                    assert(calls@ =~= spec_step_calls(
                        old(self).connected,
                        old(self).config,
                        *event,
                        *inputs,
                    ));
                }
            },
        }

        StepOutput { connect_attempt, persist, calls, exit }
    }
}

/// One scripted iteration: the event the channel delivered and what the
/// collaborators reported while it was handled.
pub struct ScriptStep {
    pub event: Event,
    pub inputs: StepInputs,
}

/// Everything observable that a run of scripted iterations produced, in
/// order: the session calls, the connect requests, the persisted
/// credentials, and whether the channel closed.
pub struct Trace {
    pub calls: Vec<ClientCall>,
    pub connects: Vec<ConnectRequest>,
    pub persists: Vec<String>,
    pub exited: bool,
}

/// Views of a sequence of owned strings.
pub open spec fn str_views(l: Seq<String>) -> Seq<Seq<char>> {
    l.map_values(|s: String| s@)
}

/// Views of a sequence of connect requests.
pub open spec fn connect_views(l: Seq<ConnectRequest>) -> Seq<(Seq<char>, Option<Seq<char>>)> {
    l.map_values(|r: ConnectRequest| (r.url@, opt_str_view(r.key)))
}

/// The connection state after running a script, stopping after a closing
/// event.
pub open spec fn run_state(s: bool, cfg: Config, script: Seq<ScriptStep>) -> bool
    decreases script.len(),
{
    if script.len() == 0 {
        s
    } else {
        let s1 = spec_step_state(s, cfg, script[0].event, script[0].inputs);
        if spec_step_exit(script[0].event) {
            s1
        } else {
            run_state(s1, cfg, script.drop_first())
        }
    }
}

/// The session calls a script produces, in order.
pub open spec fn run_calls(s: bool, cfg: Config, script: Seq<ScriptStep>) -> Seq<ClientCall>
    decreases script.len(),
{
    if script.len() == 0 {
        Seq::empty()
    } else {
        let head = spec_step_calls(s, cfg, script[0].event, script[0].inputs);
        if spec_step_exit(script[0].event) {
            head
        } else {
            head + run_calls(
                spec_step_state(s, cfg, script[0].event, script[0].inputs),
                cfg,
                script.drop_first(),
            )
        }
    }
}

/// The connect requests a script issues, in order.
pub open spec fn run_connects(s: bool, cfg: Config, script: Seq<ScriptStep>) -> Seq<
    (Seq<char>, Option<Seq<char>>),
>
    decreases script.len(),
{
    if script.len() == 0 {
        Seq::empty()
    } else {
        let head = match spec_connect_request(s, cfg, script[0].inputs) {
            Option::None => Seq::empty(),
            Option::Some(r) => seq![r],
        };
        if spec_step_exit(script[0].event) {
            head
        } else {
            head + run_connects(
                spec_step_state(s, cfg, script[0].event, script[0].inputs),
                cfg,
                script.drop_first(),
            )
        }
    }
}

/// The credentials a script persists, in order.
pub open spec fn run_persists(s: bool, cfg: Config, script: Seq<ScriptStep>) -> Seq<Seq<char>>
    decreases script.len(),
{
    if script.len() == 0 {
        Seq::empty()
    } else {
        let head = match spec_persist(s, cfg, script[0].inputs) {
            Option::None => Seq::empty(),
            Option::Some(k) => seq![k],
        };
        if spec_step_exit(script[0].event) {
            head
        } else {
            head + run_persists(
                spec_step_state(s, cfg, script[0].event, script[0].inputs),
                cfg,
                script.drop_first(),
            )
        }
    }
}

/// Whether a script closes the channel at some step.
pub open spec fn run_exited(script: Seq<ScriptStep>) -> bool
    decreases script.len(),
{
    if script.len() == 0 {
        false
    } else if spec_step_exit(script[0].event) {
        true
    } else {
        run_exited(script.drop_first())
    }
}

impl Supervisor {
    /// Run the supervisor over a whole script of iterations, as the daemon
    /// loop would, stopping when the channel closes.  The trace gathers, in
    /// order, everything the loop was asked to do.
    pub fn run_script(&mut self, script: &Vec<ScriptStep>) -> (tr: Trace)
        ensures
            final(self).config == old(self).config,
            final(self).connected == run_state(
                old(self).connected,
                old(self).config,
                script@,
            ),
            tr.calls@ == run_calls(old(self).connected, old(self).config, script@),
            connect_views(tr.connects@) == run_connects(
                old(self).connected,
                old(self).config,
                script@,
            ),
            str_views(tr.persists@) == run_persists(
                old(self).connected,
                old(self).config,
                script@,
            ),
            tr.exited == run_exited(script@),
    {
        let ghost s0 = self.connected;
        let ghost cfg = self.config;
        let n = script.len();
        let mut calls: Vec<ClientCall> = Vec::new();
        let mut connects: Vec<ConnectRequest> = Vec::new();
        let mut persists: Vec<String> = Vec::new();
        let mut exited = false;
        let mut i: usize = 0;
        proof {
            assert(script@.skip(0) =~= script@);
            assert(connect_views(connects@) =~= Seq::<(Seq<char>, Option<Seq<char>>)>::empty());
            assert(str_views(persists@) =~= Seq::<Seq<char>>::empty());
        }
        while i < n && !exited
            invariant
                0 <= i <= n,
                n == script@.len(),
                self.config == cfg,
                !exited ==> run_calls(s0, cfg, script@) == calls@ + run_calls(
                    self.connected,
                    cfg,
                    script@.skip(i as int),
                ),
                !exited ==> run_connects(s0, cfg, script@) == connect_views(connects@)
                    + run_connects(self.connected, cfg, script@.skip(i as int)),
                !exited ==> run_persists(s0, cfg, script@) == str_views(persists@) + run_persists(
                    self.connected,
                    cfg,
                    script@.skip(i as int),
                ),
                !exited ==> run_state(s0, cfg, script@) == run_state(
                    self.connected,
                    cfg,
                    script@.skip(i as int),
                ),
                !exited ==> run_exited(script@) == run_exited(script@.skip(i as int)),
                exited ==> calls@ == run_calls(s0, cfg, script@) && connect_views(connects@)
                    == run_connects(s0, cfg, script@) && str_views(persists@) == run_persists(
                    s0,
                    cfg,
                    script@,
                ) && self.connected == run_state(s0, cfg, script@) && run_exited(script@),
            decreases n - i,
        {
            let ghost pre = self.connected;
            let ghost rest = script@.skip(i as int);
            proof {
                assert(rest[0] == script@[i as int]);
                assert(rest.drop_first() =~= script@.skip(i as int + 1));
            }
            let entry = &script[i];
            let ghost prev_calls = calls@;
            let ghost prev_connects = connects@;
            let ghost prev_persists = persists@;
            let mut out = self.step(&entry.event, &entry.inputs);
            calls.append(&mut out.calls);
            let ghost head_connect = spec_connect_request(pre, cfg, rest[0].inputs);
            match out.connect_attempt {
                None => {
                    proof {
                        assert(head_connect is None);
                    }
                },
                Some(req) => {
                    connects.push(req);
                    proof {
                        assert(connect_views(connects@) =~= connect_views(prev_connects) + seq![
                            head_connect->0,
                        ]);
                    }
                },
            }
            let ghost head_persist = spec_persist(pre, cfg, rest[0].inputs);
            match out.persist {
                None => {
                    proof {
                        assert(head_persist is None);
                    }
                },
                Some(p) => {
                    persists.push(p);
                    proof {
                        assert(str_views(persists@) =~= str_views(prev_persists) + seq![
                            head_persist->0,
                        ]);
                    }
                },
            }
            proof {
                assert(calls@ =~= prev_calls + spec_step_calls(pre, cfg, rest[0].event, rest[0].inputs));
            }
            if out.exit {
                exited = true;
                proof {
                    assert(run_calls(pre, cfg, rest) =~= spec_step_calls(
                        pre,
                        cfg,
                        rest[0].event,
                        rest[0].inputs,
                    ));
                    assert(calls@ =~= run_calls(s0, cfg, script@));
                    assert(connect_views(connects@) =~= run_connects(s0, cfg, script@));
                    assert(str_views(persists@) =~= run_persists(s0, cfg, script@));
                }
            } else {
                proof {
                    let post = spec_step_state(pre, cfg, rest[0].event, rest[0].inputs);
                    assert(run_calls(pre, cfg, rest) =~= spec_step_calls(
                        pre,
                        cfg,
                        rest[0].event,
                        rest[0].inputs,
                    ) + run_calls(post, cfg, rest.drop_first()));
                    assert(prev_calls + run_calls(pre, cfg, rest) =~= calls@ + run_calls(
                        post,
                        cfg,
                        script@.skip(i as int + 1),
                    ));
                    assert(prev_connects.map_values(|r: ConnectRequest| (r.url@, opt_str_view(r.key)))
                        + run_connects(pre, cfg, rest) =~= connect_views(connects@) + run_connects(
                        post,
                        cfg,
                        script@.skip(i as int + 1),
                    ));
                    assert(str_views(prev_persists) + run_persists(pre, cfg, rest) =~= str_views(
                        persists@,
                    ) + run_persists(post, cfg, script@.skip(i as int + 1)));
                }
            }
            i = i + 1;
        }
        proof {
            if !exited {
                assert(script@.skip(n as int) =~= Seq::<ScriptStep>::empty());
                assert(calls@ =~= run_calls(s0, cfg, script@));
                assert(connect_views(connects@) =~= run_connects(s0, cfg, script@));
                assert(str_views(persists@) =~= run_persists(s0, cfg, script@));
            }
        }
        Trace { calls, connects, persists, exited }
    }
}

} // verus!
