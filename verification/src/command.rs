//! Textual commands: intake of raw lines, classification into command
//! kinds, and the audio gate that decides whether a command may be
//! dispatched at all.

use vstd::prelude::*;
use crate::text::{trim_spec, trim_str, str_eq, eq_ignore_case, eq_ignore_case_str};

verus! {

/// The kinds of command the daemon understands.  Any unrecognised token is
/// `Other`: it is accepted but causes no appliance call.
#[derive(Clone, Copy, Debug, PartialEq, Eq, Structural)]
pub enum CommandKind {
    VolumeUp,
    VolumeDown,
    Mute,
    Unmute,
    Other,
}

/// The kind a trimmed command token denotes.
pub open spec fn spec_kind_of(c: Seq<char>) -> CommandKind {
    if c == "volume_up"@ {
        CommandKind::VolumeUp
    } else if c == "volume_down"@ {
        CommandKind::VolumeDown
    } else if c == "mute"@ {
        CommandKind::Mute
    } else if c == "unmute"@ {
        CommandKind::Unmute
    } else {
        CommandKind::Other
    }
}

/// Classify a trimmed command token.
pub fn kind_of(cmd: &str) -> (k: CommandKind)
    ensures
        k == spec_kind_of(cmd@),
{
    if str_eq(cmd, "volume_up") {
        CommandKind::VolumeUp
    } else if str_eq(cmd, "volume_down") {
        CommandKind::VolumeDown
    } else if str_eq(cmd, "mute") {
        CommandKind::Mute
    } else if str_eq(cmd, "unmute") {
        CommandKind::Unmute
    } else {
        CommandKind::Other
    }
}

/// The audio-affecting kinds, the only ones subject to the audio gate.
pub open spec fn is_audio_command(k: CommandKind) -> bool {
    k != CommandKind::Other
}

/// Whether the audio gate applies to a command token, so the loop invokes
/// the audio helper once per gated command and not for the others.
pub fn gate_applies(cmd: &str) -> (r: bool)
    ensures
        r == is_audio_command(spec_kind_of(cmd@)),
{
    !(kind_of(cmd) == CommandKind::Other)
}

/// A command is suppressed exactly when it is audio-affecting and the
/// appliance is not the active audio sink.
pub open spec fn spec_suppressed(k: CommandKind, gate_active: bool) -> bool {
    !gate_active && is_audio_command(k)
}

/// What the ingestion side forwards for one raw line: the line trimmed of
/// surrounding whitespace, or nothing when only whitespace remains.
pub open spec fn spec_intake(line: Seq<char>) -> Option<Seq<char>> {
    if trim_spec(line).len() == 0 {
        None
    } else {
        Some(trim_spec(line))
    }
}

/// Turn one raw line from the command channel into a queued command:
/// trim it, and drop it when blank.
pub fn intake_line(line: &str) -> (r: Option<String>)
    ensures
        r is Some <==> trim_spec(line@).len() != 0,
        r matches Some(cmd) ==> cmd@ == trim_spec(line@),
{
    let t = trim_str(line);
    if t.is_empty() {
        None
    } else {
        Some(t.to_owned())
    }
}

/// Whether the helper's report makes the appliance the active audio sink:
/// the report exists and, trimmed, names the target device up to ASCII
/// case.  A missing report (no helper, or a failed invocation) counts as
/// not active, so audio commands are conservatively suppressed.
pub open spec fn spec_gate_active(report: Option<Seq<char>>, target: Seq<char>) -> bool {
    match report {
        Option::None => false,
        Option::Some(out) => eq_ignore_case(trim_spec(out), target),
    }
}

/// Decide the audio gate from the helper's raw output.
pub fn gate_active(report: &Option<String>, target: &str) -> (r: bool)
    ensures
        r == spec_gate_active(
            match *report {
                Option::None => Option::None,
                Option::Some(ref s) => Option::Some(s@),
            },
            target@,
        ),
{
    match report {
        Option::None => false,
        Option::Some(out) => eq_ignore_case_str(trim_str(out.as_str()), target),
    }
}

} // verus!
