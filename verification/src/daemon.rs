//! What the daemon does: take over from an earlier one, or leave it the field, and answer the
//! clients that connect.

use crate::client::can_be_sent;
use crate::client::last_message;
use crate::client::replay;
use crate::client::replay_of_a_transcript;
use crate::client::transcript;
use crate::client::ExitCode;
use crate::client::Replay;
use crate::text::same_text;
use crate::wire::write_message;
use crate::wire::JsonStreamMessage;
use crate::wire::Message;
use vstd::prelude::*;

verus! {

/// What a process is.
#[derive(Clone, Copy, PartialEq, Eq, Structural, Debug)]
pub enum Role {
    Daemon,
    Client,
}

/// What a process is, given what `__CG_CLIF_DAEMON_START` is set to.
pub fn role(start: Option<&str>) -> (role: Role)
    ensures
        role == (if start is Some && start->0@ == "1"@ {
            Role::Daemon
        } else {
            Role::Client
        }),
{
    match start {
        Some(value) => if same_text(value, "1") {
            Role::Daemon
        } else {
            Role::Client
        },
        None => Role::Client,
    }
}

/// How far a daemon has come.
#[derive(Clone, Copy, PartialEq, Eq, Structural, Debug)]
pub enum Phase {
    /// It holds the lock, and tries to connect to the socket, to find out whether another daemon
    /// answers there.
    Probe,
    /// It removes the socket that a daemon before it may have left, and binds its own.
    Bind,
    /// It gets ready, and notifies the process that started it.  That process goes on to connect
    /// to whichever daemon is listening.
    Initialize { listening: bool },
    /// It waits for a client to connect, once it has a token to run a job with.
    Serve,
    /// It ends: another daemon does its work.
    Exit,
}

/// What comes after `phase`, given whether what it tries succeeds.
pub open spec fn next_phase(phase: Phase, succeeded: bool) -> Phase {
    match phase {
        Phase::Probe => if succeeded {
            Phase::Initialize { listening: false }
        } else {
            Phase::Bind
        },
        Phase::Bind => Phase::Initialize { listening: succeeded },
        Phase::Initialize { listening } => if listening {
            Phase::Serve
        } else {
            Phase::Exit
        },
        Phase::Serve => Phase::Serve,
        Phase::Exit => Phase::Exit,
    }
}

impl Phase {
    /// What comes next, given whether what this phase tries succeeded.  There is no way to go on
    /// where no client can be waited for any more.
    pub fn next(self, succeeded: bool) -> (next: Phase)
        requires
            self is Serve ==> succeeded,
        ensures
            next == next_phase(self, succeeded),
    {
        match self {
            Phase::Probe => if succeeded {
                Phase::Initialize { listening: false }
            } else {
                Phase::Bind
            },
            Phase::Bind => Phase::Initialize { listening: succeeded },
            Phase::Initialize { listening } => if listening {
                Phase::Serve
            } else {
                Phase::Exit
            },
            Phase::Serve => Phase::Serve,
            Phase::Exit => Phase::Exit,
        }
    }

    /// How the daemon ends, if it does.
    pub fn exit_code(self) -> (code: Option<ExitCode>)
        ensures
            code == (match self {
                Phase::Exit => Some(ExitCode::Success),
                _ => None,
            }),
    {
        match self {
            Phase::Exit => Some(ExitCode::Success),
            _ => None,
        }
    }
}

/// The phase that is reached from `phase` when what it and those after it try succeeds or not, one
/// after the other, as `outcomes` says.
pub open spec fn phase_after(phase: Phase, outcomes: Seq<bool>) -> Phase
    decreases outcomes.len(),
{
    if outcomes.len() == 0 {
        phase
    } else {
        phase_after(next_phase(phase, outcomes.first()), outcomes.drop_first())
    }
}

/// How a compilation ended, as it is reported to the client, given how the compiler ended, or
/// nothing where the request of the client made no sense and the compiler was not run.
pub open spec fn outcome(compiler: Option<ExitCode>) -> ExitCode {
    if compiler == Some(ExitCode::Success) {
        ExitCode::Success
    } else {
        ExitCode::Failure
    }
}

/// The last message to a client, given how the compiler ended, or nothing where the request of the
/// client made no sense and the compiler was not run.
pub fn reply(compiler: Option<ExitCode>) -> (message: JsonStreamMessage)
    ensures
        message@ == last_message(outcome(compiler)),
{
    match compiler {
        Some(ExitCode::Success) => JsonStreamMessage::ExitSucces,
        _ => JsonStreamMessage::ExitFailure,
    }
}

/// What writing `buf` to the client comes to: the bytes that are sent, and how many of those in
/// `buf` they stand for, which is all of them.
pub fn frame_output(buf: &[u8]) -> (framed: (Vec<u8>, usize))
    ensures
        framed.0@ == write_message(Message::OutputBytes(buf@)),
        framed.1 == buf@.len(),
{
    let mut items: Vec<u8> = Vec::new();
    items.extend_from_slice(buf);
    assert(items@ =~= buf@);
    (JsonStreamMessage::OutputBytes(items).encode(), buf.len())
}

/// Whatever happens to a daemon while it starts, it gets ready, and so notifies the process that
/// started it.
pub proof fn a_daemon_gets_ready(probed: bool, bound: bool)
    ensures
        probed ==> phase_after(Phase::Probe, seq![probed]) is Initialize,
        !probed ==> phase_after(Phase::Probe, seq![probed, bound]) is Initialize,
{
    reveal_with_fuel(phase_after, 3);
    assert(seq![probed].drop_first() =~= seq![]);
    assert(seq![probed, bound].drop_first() =~= seq![bound]);
    assert(seq![bound].drop_first() =~= seq![]);
}

/// A daemon serves clients just if no other daemon answered and it could bind the socket.
/// Otherwise it ends.
pub proof fn a_daemon_serves_alone(outcomes: Seq<bool>)
    requires
        outcomes.len() == 3,
    ensures
        phase_after(Phase::Probe, outcomes) == (if !outcomes[0] && outcomes[1] {
            Phase::Serve
        } else {
            Phase::Exit
        }),
{
    reveal_with_fuel(phase_after, 4);
}

/// A daemon that serves clients keeps doing so, for as long as it can wait for them, and one that
/// ended stays that way.
pub proof fn a_daemon_stays_as_it_is(outcomes: Seq<bool>)
    ensures
        (forall|i: int| 0 <= i < outcomes.len() ==> outcomes[i]) ==> phase_after(
            Phase::Serve,
            outcomes,
        ) == Phase::Serve,
        phase_after(Phase::Exit, outcomes) == Phase::Exit,
    decreases outcomes.len(),
{
    if outcomes.len() > 0 {
        a_daemon_stays_as_it_is(outcomes.drop_first());
    }
}

/// A client that follows what the daemon sends for a compilation shows all its output, and ends
/// with a success just if the compiler was run and succeeded.
pub proof fn a_client_learns_the_outcome(outputs: Seq<Seq<u8>>, compiler: Option<ExitCode>)
    requires
        can_be_sent(outputs),
    ensures
        replay(transcript(outputs, outcome(compiler))) == (Replay {
            output: outputs.flatten(),
            rest: seq![],
            exit: Some(outcome(compiler)),
        }),
        outcome(compiler) == ExitCode::Success <==> compiler == Some(ExitCode::Success),
{
    let sent = transcript(outputs, outcome(compiler));
    replay_of_a_transcript(outputs, outcome(compiler), seq![]);
    assert(sent + Seq::<u8>::empty() =~= sent);
}

/// What a daemon goes through while it starts: it yields to another one that answers; it binds the
/// socket only where none does, and listens just if that works; and it serves just if it listens.
pub proof fn how_a_daemon_starts(succeeded: bool)
    ensures
        next_phase(Phase::Probe, true) == (Phase::Initialize { listening: false }),
        next_phase(Phase::Probe, false) == Phase::Bind,
        next_phase(Phase::Bind, succeeded) == (Phase::Initialize { listening: succeeded }),
        next_phase(Phase::Initialize { listening: true }, succeeded) == Phase::Serve,
        next_phase(Phase::Initialize { listening: false }, succeeded) == Phase::Exit,
{
}

/// The last message to a client says that the compilation succeeded just if the compiler was run and
/// succeeded, and else that it failed.
pub proof fn the_last_message_tells_the_outcome(compiler: Option<ExitCode>)
    ensures
        last_message(outcome(compiler)) == Message::ExitSucces <==> compiler == Some(
            ExitCode::Success,
        ),
        last_message(outcome(compiler)) == Message::ExitFailure <==> compiler != Some(
            ExitCode::Success,
        ),
{
}

} // verus!
