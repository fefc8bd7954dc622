//! The supervisor's guarantees, stated and proved over the specification
//! functions that the executable contracts use.

use vstd::prelude::*;
use crate::command::{CommandKind, spec_kind_of, is_audio_command, spec_suppressed};
use crate::supervisor::{
    Config, Event, ScriptStep, StepInputs, ClientCall, ConnectOutcome, QueryOutcome,
    spec_resolved, spec_cached_key, spec_connect_request, spec_connected_after_attempt,
    spec_persist, spec_active, spec_probe_failed, spec_dispatch_calls, spec_step_calls,
    spec_step_state, run_calls, run_state, run_connects, run_exited,
};
use crate::text::trim_spec;

verus! {

/// Commands are applied in the exact order they arrive: a run over a
/// script made of a first part and a rest issues the first part's session
/// calls, in order, and only then the rest's, started in the state the
/// first part left behind.  No call of a later command ever precedes a
/// call of an earlier one.
pub proof fn lemma_calls_in_order(s: bool, cfg: Config, a: Seq<ScriptStep>, b: Seq<ScriptStep>)
    requires
        !run_exited(a),
    ensures
        run_calls(s, cfg, a + b) == run_calls(s, cfg, a) + run_calls(
            run_state(s, cfg, a),
            cfg,
            b,
        ),
    decreases a.len(),
{
    if a.len() == 0 {
        assert(a + b =~= b);
        assert(run_calls(s, cfg, a) =~= Seq::<ClientCall>::empty());
        assert(run_calls(s, cfg, a + b) =~= run_calls(s, cfg, a) + run_calls(
            run_state(s, cfg, a),
            cfg,
            b,
        ));
    } else {
        let s1 = spec_step_state(s, cfg, a[0].event, a[0].inputs);
        assert((a + b)[0] == a[0]);
        assert((a + b).drop_first() =~= a.drop_first() + b);
        lemma_calls_in_order(s1, cfg, a.drop_first(), b);
        assert(run_calls(s, cfg, a + b) =~= run_calls(s, cfg, a) + run_calls(
            run_state(s, cfg, a),
            cfg,
            b,
        ));
    }
}

/// The audio gate: while the helper does not report the appliance as the
/// active sink, an audio-affecting command is silently discarded — the
/// iteration makes no session call and leaves the connection state exactly
/// where the reconnect phase put it.  A command of any other token never
/// makes a session call, whatever the helper said.
pub proof fn lemma_gate_suppression(s: bool, cfg: Config, cmd: String, inp: StepInputs)
    ensures
        !spec_active(cfg, inp) && is_audio_command(spec_kind_of(cmd@)) ==> spec_step_calls(
            s,
            cfg,
            Event::Command(cmd),
            inp,
        ) =~= Seq::<ClientCall>::empty(),
        !spec_active(cfg, inp) && is_audio_command(spec_kind_of(cmd@)) ==> spec_step_state(
            s,
            cfg,
            Event::Command(cmd),
            inp,
        ) == spec_connected_after_attempt(s, cfg, inp),
        !is_audio_command(spec_kind_of(cmd@)) ==> spec_step_calls(
            s,
            cfg,
            Event::Command(cmd),
            inp,
        ) =~= Seq::<ClientCall>::empty(),
{
}

/// A failed volume probe while Connected invalidates the session: the
/// iteration ends Disconnected, and any later iteration that resolves an
/// address issues a fresh connect request — the old session is never
/// reused.
pub proof fn lemma_probe_failure_reconnects(
    s: bool,
    cfg: Config,
    cmd: String,
    inp: StepInputs,
    inp2: StepInputs,
)
    requires
        spec_connected_after_attempt(s, cfg, inp),
        spec_kind_of(cmd@) == CommandKind::VolumeUp || spec_kind_of(cmd@)
            == CommandKind::VolumeDown,
        !spec_suppressed(spec_kind_of(cmd@), spec_active(cfg, inp)),
        inp.query is CallFailed,
    ensures
        !spec_step_state(s, cfg, Event::Command(cmd), inp),
        spec_resolved(cfg, inp2) is Some ==> spec_connect_request(
            spec_step_state(s, cfg, Event::Command(cmd), inp),
            cfg,
            inp2,
        ) is Some,
{
}

/// Credential persistence: when a fresh connect yields a credential, the
/// trimmed credential is persisted exactly when it differs from the cached
/// one, and what is persisted is the new credential, trimmed; when they
/// agree, nothing is written.
pub proof fn lemma_credential_persistence(s: bool, cfg: Config, inp: StepInputs, k: String)
    requires
        !s,
        spec_resolved(cfg, inp) is Some,
        inp.connect == (ConnectOutcome::Accepted { yielded_key: Option::Some(k) }),
    ensures
        spec_cached_key(inp) == Option::Some(trim_spec(k@)) ==> spec_persist(s, cfg, inp)
            is None,
        spec_cached_key(inp) != Option::Some(trim_spec(k@)) ==> spec_persist(s, cfg, inp)
            == Option::Some(trim_spec(k@)),
{
}

/// A connect attempt that yields no credential, or no connect attempt at
/// all, persists nothing.
pub proof fn lemma_no_persist_without_new_key(s: bool, cfg: Config, inp: StepInputs)
    ensures
        s ==> spec_persist(s, cfg, inp) is None,
        spec_resolved(cfg, inp) is None ==> spec_persist(s, cfg, inp) is None,
        inp.connect == ConnectOutcome::Failed ==> spec_persist(s, cfg, inp) is None,
        inp.connect == (ConnectOutcome::Accepted { yielded_key: Option::None }) ==> spec_persist(
            s,
            cfg,
            inp,
        ) is None,
{
}

/// While no iteration resolves an address, a Disconnected supervisor stays
/// Disconnected forever, never contacts the session client and never
/// attempts a connect, no matter how many retry iterations pass.
pub proof fn lemma_unresolvable_stays_disconnected(cfg: Config, script: Seq<ScriptStep>)
    requires
        forall|i: int|
            0 <= i < script.len() ==> spec_resolved(cfg, #[trigger] script[i].inputs) is None,
    ensures
        !run_state(false, cfg, script),
        run_calls(false, cfg, script) =~= Seq::<ClientCall>::empty(),
        run_connects(false, cfg, script) =~= Seq::<(Seq<char>, Option<Seq<char>>)>::empty(),
    decreases script.len(),
{
    if script.len() == 0 {
    } else {
        assert(spec_resolved(cfg, script[0].inputs) is None);
        assert(!spec_connected_after_attempt(false, cfg, script[0].inputs));
        assert(!spec_step_state(false, cfg, script[0].event, script[0].inputs));
        assert(spec_step_calls(false, cfg, script[0].event, script[0].inputs) =~= Seq::<
            ClientCall,
        >::empty());
        assert(forall|i: int|
            0 <= i < script.drop_first().len() ==> spec_resolved(
                cfg,
                #[trigger] script.drop_first()[i].inputs,
            ) is None);
        lemma_unresolvable_stays_disconnected(cfg, script.drop_first());
    }
}

/// Volume steps are idempotent at the range boundaries: a step down from
/// level 0 sets 0 again, and a step up from level 100 sets 100 again —
/// the requested level never leaves the appliance's range.
pub proof fn lemma_volume_boundaries()
    ensures
        spec_dispatch_calls(CommandKind::VolumeDown, QueryOutcome::Volume(0)) =~= seq![
            ClientCall::GetVolume,
            ClientCall::SetVolume(0),
        ],
        spec_dispatch_calls(CommandKind::VolumeUp, QueryOutcome::Volume(100)) =~= seq![
            ClientCall::GetVolume,
            ClientCall::SetVolume(100),
        ],
{
}

} // verus!
