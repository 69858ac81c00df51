//! What a client of the daemon does: find out whether a compilation is for the daemon at all, get
//! through to the daemon, and follow what the daemon reports.

use crate::text::same_text;
use crate::text::texts;
use crate::wire::a_cut_message_is_incomplete;
use crate::wire::other_numbers_are_malformed;
use crate::wire::read_message;
use crate::wire::read_message_extends;
use crate::wire::read_message_inverts_write;
use crate::wire::write_message;
use crate::wire::write_varint;
use crate::wire::JsonStreamMessage;
use crate::wire::Message;
use crate::wire::ReadError;
use vstd::prelude::*;

verus! {

/// How a process ends.
#[derive(Clone, Copy, PartialEq, Eq, Structural, Debug)]
pub enum ExitCode {
    Success,
    Failure,
}

/// A compilation, as the client asks for it.
pub struct CompileTask {
    /// The command line, beginning with the name of the program.
    pub args: Vec<String>,
    /// The environment.
    pub env: Vec<(String, String)>,
    /// The directory that relative paths are relative to.
    pub working_directory: Vec<u8>,
}

/// What is left to do after the options of the compiler were looked at.
pub enum HandledOptions {
    /// Nothing: everything that was asked for has been printed.
    Done,
    /// A compilation.  `print` says whether information about it is asked for, and `free` are the
    /// arguments that are not options.
    Normal { print: bool, free: Vec<String> },
    /// Only to show help.
    HelpOnly,
}

/// Who takes care of an invocation of the compiler.
#[derive(Clone, Copy, PartialEq, Eq, Structural, Debug)]
pub enum Route {
    /// Nobody: there is nothing left to do.
    Exit,
    /// The daemon.
    Daemon,
    /// This very process.
    Local,
}

/// Who takes care of an invocation: the daemon compiles, except where the client has to print
/// something itself, or where the source comes from its standard input.
pub open spec fn route_for(options: HandledOptions) -> Route {
    match options {
        HandledOptions::Done => Route::Exit,
        HandledOptions::Normal { print, free } => if !print && !texts(free@).contains("-"@) {
            Route::Daemon
        } else {
            Route::Local
        },
        HandledOptions::HelpOnly => Route::Local,
    }
}

/// Whether `wanted` is one of `pieces`.
fn contains_text(pieces: &Vec<String>, wanted: &str) -> (yes: bool)
    ensures
        yes == texts(pieces@).contains(wanted@),
{
    for i in 0..pieces.len()
        invariant
            forall|j: int| 0 <= j < i ==> texts(pieces@)[j] != wanted@,
    {
        if same_text(pieces[i].as_str(), wanted) {
            assert(texts(pieces@)[i as int] == wanted@);
            return true;
        }
    }
    false
}

/// Decides who takes care of an invocation.
pub fn route(options: &HandledOptions) -> (route: Route)
    ensures
        route == route_for(*options),
{
    match options {
        HandledOptions::Done => Route::Exit,
        HandledOptions::Normal { print, free } => if !*print && !contains_text(free, "-") {
            Route::Daemon
        } else {
            Route::Local
        },
        HandledOptions::HelpOnly => Route::Local,
    }
}

impl Route {
    /// How the client ends, unless the daemon is to say so.  A compilation in this very process
    /// reports what goes wrong itself.
    pub fn exit_code(self) -> (code: Option<ExitCode>)
        ensures
            code == (match self {
                Route::Exit | Route::Local => Some(ExitCode::Success),
                Route::Daemon => None,
            }),
    {
        match self {
            Route::Exit | Route::Local => Some(ExitCode::Success),
            Route::Daemon => None,
        }
    }
}

/// The command line without the name of the program.
pub fn compiler_arguments(args: &Vec<String>) -> (arguments: Vec<String>)
    ensures
        texts(arguments@) == (if args@.len() > 0 {
            texts(args@).skip(1)
        } else {
            seq![]
        }),
{
    let mut arguments: Vec<String> = Vec::new();
    let mut i: usize = 1;
    while i < args.len()
        invariant
            args@.len() > 0 ==> 1 <= i <= args@.len(),
            args@.len() == 0 ==> i == 1,
            texts(arguments@) =~= (if args@.len() > 0 {
                texts(args@).subrange(1, i as int)
            } else {
                seq![]
            }),
        decreases args.len() - i,
    {
        let ghost before = texts(arguments@);
        arguments.push(args[i].clone());
        assert(texts(arguments@) =~= before.push(args@[i as int]@));
        i = i + 1;
    }
    arguments
}

/// What a client does after it failed to connect.
#[derive(Clone, Copy, PartialEq, Eq, Structural, Debug)]
pub enum ConnectAction {
    /// It starts a daemon, and connects again.
    StartDaemon,
    /// It gives up, and ends.
    GiveUp,
}

impl ConnectAction {
    /// How the client ends, if it does.
    pub fn exit_code(self) -> (code: Option<ExitCode>)
        ensures
            code == (match self {
                ConnectAction::StartDaemon => None,
                ConnectAction::GiveUp => Some(ExitCode::Failure),
            }),
    {
        match self {
            ConnectAction::StartDaemon => None,
            ConnectAction::GiveUp => Some(ExitCode::Failure),
        }
    }
}

/// What a client does after it failed to connect, given whether it has already started a daemon.
pub open spec fn on_failure(retrying: bool) -> ConnectAction {
    if retrying {
        ConnectAction::GiveUp
    } else {
        ConnectAction::StartDaemon
    }
}

/// The attempts of a client to connect to the daemon.
pub struct Connection {
    /// A daemon has been started by this client.
    pub retrying: bool,
}

impl Connection {
    /// Before the first attempt.
    pub fn new() -> (connection: Self)
        ensures
            !connection.retrying,
    {
        Connection { retrying: false }
    }

    /// An attempt failed.
    pub fn failed(&mut self) -> (action: ConnectAction)
        ensures
            final(self).retrying,
            action == on_failure(old(self).retrying),
    {
        if self.retrying {
            ConnectAction::GiveUp
        } else {
            self.retrying = true;
            ConnectAction::StartDaemon
        }
    }
}

/// What following a stream of bytes from the daemon comes to.
#[verifier::ext_equal]
pub struct Replay {
    /// What goes to the standard error stream.
    pub output: Seq<u8>,
    /// The bytes that were not looked at, because the client ends before them, or that are not
    /// yet, or not at all, a message.
    pub rest: Seq<u8>,
    /// How the client ends, if it does.
    pub exit: Option<ExitCode>,
}

/// Follows `stream`: what the daemon has for the standard error stream goes there, in order, until
/// the daemon says how the compilation ended, or until it says something that makes no sense.
pub open spec fn replay(stream: Seq<u8>) -> Replay
    decreases stream.len(),
{
    match read_message(stream) {
        Ok((Message::ExitSucces, rest)) => Replay {
            output: seq![],
            rest,
            exit: Some(ExitCode::Success),
        },
        Ok((Message::ExitFailure, rest)) => Replay {
            output: seq![],
            rest,
            exit: Some(ExitCode::Failure),
        },
        Ok((Message::OutputBytes(items), rest)) => {
            proof {
                read_message_extends(stream, seq![]);
            }
            let next = replay(rest);
            Replay { output: items + next.output, rest: next.rest, exit: next.exit }
        },
        Err(ReadError::Malformed) => Replay {
            output: seq![],
            rest: stream,
            exit: Some(ExitCode::Failure),
        },
        Err(ReadError::Incomplete) => Replay { output: seq![], rest: stream, exit: None },
    }
}

/// A client that follows what the daemon reports.
pub struct ClientSession {
    /// The beginning of a message.
    pub pending: Vec<u8>,
    /// How the client ends, once that is known.
    pub exit: Option<ExitCode>,
}

impl ClientSession {
    /// Nothing was received yet.
    pub fn new() -> (session: Self)
        ensures
            session.pending@ == Seq::<u8>::empty(),
            session.exit is None,
    {
        ClientSession { pending: Vec::new(), exit: None }
    }

    /// Some bytes were received.  Gives what goes to the standard error stream.  Nothing that is
    /// received after it is known how the client ends makes a difference.
    pub fn receive(&mut self, chunk: &[u8]) -> (output: Vec<u8>)
        ensures
            old(self).exit is Some ==> output@.len() == 0 && *final(self) == *old(self),
            old(self).exit is None ==> ({
                let followed = replay(old(self).pending@ + chunk@);
                &&& output@ == followed.output
                &&& final(self).pending@ == followed.rest
                &&& final(self).exit == followed.exit
            }),
    {
        let mut output: Vec<u8> = Vec::new();
        if self.exit.is_some() {
            return output;
        }
        let ghost stream = self.pending@ + chunk@;
        self.pending.extend_from_slice(chunk);
        assert(self.pending@ =~= stream);
        let mut rest: &[u8] = self.pending.as_slice();
        let mut exit: Option<ExitCode> = None;
        let mut more: bool = true;
        while more
            invariant
                more ==> exit is None,
                more ==> replay(stream) == (Replay {
                    output: output@ + replay(rest@).output,
                    rest: replay(rest@).rest,
                    exit: replay(rest@).exit,
                }),
                !more ==> replay(stream) == (Replay { output: output@, rest: rest@, exit }),
            decreases rest@.len(), (if more { 1int } else { 0int }),
        {
            let ghost none: Seq<u8> = seq![];
            assert(output@ + none =~= output@);
            match JsonStreamMessage::decode(rest) {
                Ok((message, next)) => {
                    proof {
                        read_message_extends(rest@, none);
                    }
                    match message {
                        JsonStreamMessage::ExitSucces => {
                            exit = Some(ExitCode::Success);
                            more = false;
                        },
                        JsonStreamMessage::ExitFailure => {
                            exit = Some(ExitCode::Failure);
                            more = false;
                        },
                        JsonStreamMessage::OutputBytes(items) => {
                            let mut items = items;
                            let ghost before = output@;
                            let ghost said = items@;
                            output.append(&mut items);
                            assert(before + (said + replay(next@).output) =~= output@ + replay(
                                next@,
                            ).output);
                        },
                    }
                    rest = next;
                },
                Err(ReadError::Incomplete) => {
                    more = false;
                },
                Err(ReadError::Malformed) => {
                    exit = Some(ExitCode::Failure);
                    more = false;
                },
            }
        }
        let mut pending: Vec<u8> = Vec::new();
        pending.extend_from_slice(rest);
        assert(pending@ =~= rest@);
        self.pending = pending;
        self.exit = exit;
        output
    }

    /// Nothing more will be received.  Gives how the client ends: a daemon that fell silent before
    /// it said how the compilation ended did not complete it.
    pub fn close(&self) -> (code: ExitCode)
        ensures
            code == (match self.exit {
                Some(code) => code,
                None => ExitCode::Failure,
            }),
    {
        match self.exit {
            Some(code) => code,
            None => ExitCode::Failure,
        }
    }
}

/// What a client does after each of so many failures to connect.
pub open spec fn actions_on_failures(retrying: bool, failures: nat) -> Seq<ConnectAction>
    decreases failures,
{
    if failures == 0 {
        seq![]
    } else {
        seq![on_failure(retrying)] + actions_on_failures(true, (failures - 1) as nat)
    }
}

/// A client starts a daemon after its first failure to connect, and never again.
pub proof fn a_client_starts_one_daemon(failures: nat)
    ensures
        actions_on_failures(false, failures).len() == failures,
        failures > 0 ==> actions_on_failures(false, failures)[0] == ConnectAction::StartDaemon,
        forall|i: int|
            0 < i < failures ==> #[trigger] actions_on_failures(false, failures)[i]
                == ConnectAction::GiveUp,
{
    if failures > 0 {
        lemma_retrying_never_starts_a_daemon((failures - 1) as nat);
    }
}

proof fn lemma_retrying_never_starts_a_daemon(failures: nat)
    ensures
        actions_on_failures(true, failures).len() == failures,
        forall|i: int|
            0 <= i < failures ==> #[trigger] actions_on_failures(true, failures)[i]
                == ConnectAction::GiveUp,
    decreases failures,
{
    if failures > 0 {
        lemma_retrying_never_starts_a_daemon((failures - 1) as nat);
    }
}

/// The message that says how a compilation ended.
pub open spec fn last_message(exit: ExitCode) -> Message {
    match exit {
        ExitCode::Success => Message::ExitSucces,
        ExitCode::Failure => Message::ExitFailure,
    }
}

/// All that the daemon sends for a compilation: what it has for the standard error stream, piece
/// by piece, and how the compilation ended.
pub open spec fn transcript(outputs: Seq<Seq<u8>>, exit: ExitCode) -> Seq<u8>
    decreases outputs.len(),
{
    if outputs.len() == 0 {
        write_message(last_message(exit))
    } else {
        write_message(Message::OutputBytes(outputs.first())) + transcript(
            outputs.drop_first(),
            exit,
        )
    }
}

/// No piece is longer than memory is large.
pub open spec fn can_be_sent(outputs: Seq<Seq<u8>>) -> bool {
    forall|i: int| 0 <= i < outputs.len() ==> (#[trigger] outputs[i]).len() <= usize::MAX
}

/// A client that follows a whole transcript puts out just what the daemon had for the standard
/// error stream, however it was cut into pieces, and ends as the compilation did.  It looks at
/// nothing that comes after the transcript.
pub proof fn replay_of_a_transcript(outputs: Seq<Seq<u8>>, exit: ExitCode, more: Seq<u8>)
    requires
        can_be_sent(outputs),
    ensures
        replay(transcript(outputs, exit) + more) == (Replay {
            output: outputs.flatten(),
            rest: more,
            exit: Some(exit),
        }),
    decreases outputs.len(),
{
    if outputs.len() == 0 {
        read_message_inverts_write(last_message(exit), more);
    } else {
        let message = Message::OutputBytes(outputs.first());
        let next = transcript(outputs.drop_first(), exit) + more;
        assert(transcript(outputs, exit) + more =~= write_message(message) + next);
        read_message_inverts_write(message, next);
        assert(can_be_sent(outputs.drop_first())) by {
            assert forall|i: int| 0 <= i < outputs.drop_first().len() implies (
            #[trigger] outputs.drop_first()[i]).len() <= usize::MAX by {
                assert(outputs.drop_first()[i] == outputs[i + 1]);
            }
        }
        replay_of_a_transcript(outputs.drop_first(), exit, more);
    }
}

/// A client that received only a part of a transcript does not take the compilation to be over:
/// if nothing more comes, it ends with a failure.  What it has put out is a beginning of what the
/// daemon had for the standard error stream.
pub proof fn a_cut_transcript_does_not_end(outputs: Seq<Seq<u8>>, exit: ExitCode, n: int)
    requires
        can_be_sent(outputs),
        0 <= n < transcript(outputs, exit).len(),
    ensures
        replay(transcript(outputs, exit).take(n)).exit is None,
        replay(transcript(outputs, exit).take(n)).output.is_prefix_of(outputs.flatten()),
    decreases outputs.len(),
{
    let part = transcript(outputs, exit).take(n);
    if outputs.len() == 0 {
        a_cut_message_is_incomplete(last_message(exit), n);
    } else {
        let message = Message::OutputBytes(outputs.first());
        let head = write_message(message);
        let tail = transcript(outputs.drop_first(), exit);
        if n < head.len() {
            assert(part =~= head.take(n));
            a_cut_message_is_incomplete(message, n);
        } else {
            let m = n - head.len();
            assert(part =~= head + tail.take(m));
            read_message_inverts_write(message, tail.take(m));
            assert(can_be_sent(outputs.drop_first())) by {
                assert forall|i: int| 0 <= i < outputs.drop_first().len() implies (
                #[trigger] outputs.drop_first()[i]).len() <= usize::MAX by {
                    assert(outputs.drop_first()[i] == outputs[i + 1]);
                }
            }
            a_cut_transcript_does_not_end(outputs.drop_first(), exit, m);
            let shown = replay(tail.take(m)).output;
            assert(outputs.first() + shown =~= (outputs.first()
                + outputs.drop_first().flatten()).subrange(
                0,
                (outputs.first() + shown).len() as int,
            ));
        }
    }
}

/// It makes no difference how a stream is cut into chunks: to follow it up to some place, and then
/// to go on with what was left over and the rest of the stream, is to follow it as a whole.
pub proof fn replay_in_chunks(first: Seq<u8>, second: Seq<u8>)
    ensures
        replay(first).exit is Some ==> replay(first + second) == (Replay {
            output: replay(first).output,
            rest: replay(first).rest + second,
            exit: replay(first).exit,
        }),
        replay(first).exit is None ==> replay(first + second) == (Replay {
            output: replay(first).output + replay(replay(first).rest + second).output,
            rest: replay(replay(first).rest + second).rest,
            exit: replay(replay(first).rest + second).exit,
        }),
    decreases first.len(),
{
    read_message_extends(first, second);
    let none: Seq<u8> = seq![];
    assert(none + replay(first + second).output =~= replay(first + second).output);
    if let Ok((Message::OutputBytes(items), rest)) = read_message(first) {
        replay_in_chunks(rest, second);
        let next = replay(rest);
        assert((items + next.output) + replay(next.rest + second).output =~= items + (next.output
            + replay(next.rest + second).output));
    }
}

/// Who takes care of an invocation: nobody where nothing is left to do, and the client where only
/// help is asked for, or information, whatever else is; the daemon takes care of a compilation
/// without these just if none of the arguments that are not options is a single dash.
pub proof fn who_takes_care_of_an_invocation(free: Vec<String>)
    ensures
        route_for(HandledOptions::Done) == Route::Exit,
        route_for(HandledOptions::HelpOnly) == Route::Local,
        route_for(HandledOptions::Normal { print: true, free }) == Route::Local,
        route_for(HandledOptions::Normal { print: false, free }) == Route::Daemon <==> (forall|
            i: int,
        |
            0 <= i < free@.len() ==> (#[trigger] free@[i])@ != "-"@),
        route_for(HandledOptions::Normal { print: false, free }) != Route::Daemon ==> route_for(
            HandledOptions::Normal { print: false, free },
        ) == Route::Local,
{
    let all = texts(free@);
    if forall|i: int| 0 <= i < free@.len() ==> (#[trigger] free@[i])@ != "-"@ {
        assert forall|i: int| 0 <= i < all.len() implies all[i] != "-"@ by {
            assert(all[i] == free@[i]@);
        }
    } else {
        let i = choose|i: int| 0 <= i < free@.len() && (#[trigger] free@[i])@ == "-"@;
        assert(all[i] == "-"@);
    }
}

/// The messages that carry `outputs`, one after the other.
pub open spec fn output_messages(outputs: Seq<Seq<u8>>) -> Seq<u8>
    decreases outputs.len(),
{
    if outputs.len() == 0 {
        seq![]
    } else {
        write_message(Message::OutputBytes(outputs.first())) + output_messages(outputs.drop_first())
    }
}

/// Output is shown at once: to follow messages that carry output, and whatever comes after them, is
/// to show all of that output, and then to follow what comes after.
pub proof fn output_is_shown_at_once(outputs: Seq<Seq<u8>>, tail: Seq<u8>)
    requires
        forall|i: int| 0 <= i < outputs.len() ==> (#[trigger] outputs[i]).len() <= usize::MAX,
    ensures
        replay(output_messages(outputs) + tail) == (Replay {
            output: outputs.flatten() + replay(tail).output,
            rest: replay(tail).rest,
            exit: replay(tail).exit,
        }),
    decreases outputs.len(),
{
    if outputs.len() == 0 {
        assert(output_messages(outputs) + tail =~= tail);
        assert(outputs.flatten() + replay(tail).output =~= replay(tail).output);
    } else {
        let message = Message::OutputBytes(outputs.first());
        let next = output_messages(outputs.drop_first()) + tail;
        assert(output_messages(outputs) + tail =~= write_message(message) + next);
        assert(outputs[0].len() <= usize::MAX);
        read_message_inverts_write(message, next);
        assert forall|i: int| 0 <= i < outputs.drop_first().len() implies (
        #[trigger] outputs.drop_first()[i]).len() <= usize::MAX by {
            assert(outputs.drop_first()[i] == outputs[i + 1]);
        }
        output_is_shown_at_once(outputs.drop_first(), tail);
        assert(outputs.flatten() + replay(tail).output =~= outputs.first() + (
        outputs.drop_first().flatten() + replay(tail).output));
    }
}

/// Complete messages are shown without waiting for what follows them: where a further message has
/// only begun to arrive, all output before it is shown, and just that beginning is left over.
pub proof fn complete_messages_do_not_wait(outputs: Seq<Seq<u8>>, message: Message, n: int)
    requires
        forall|i: int| 0 <= i < outputs.len() ==> (#[trigger] outputs[i]).len() <= usize::MAX,
        message matches Message::OutputBytes(items) ==> items.len() <= usize::MAX,
        0 <= n < write_message(message).len(),
    ensures
        replay(output_messages(outputs) + write_message(message).take(n)) == (Replay {
            output: outputs.flatten(),
            rest: write_message(message).take(n),
            exit: None,
        }),
{
    let tail = write_message(message).take(n);
    output_is_shown_at_once(outputs, tail);
    a_cut_message_is_incomplete(message, n);
    assert(outputs.flatten() + replay(tail).output =~= outputs.flatten());
}

/// How a client ends: with a success where the daemon says so, and with a failure where it says
/// that, or where it sends a number that no message has.  All output before that is shown, and
/// nothing after it is looked at.
pub proof fn how_a_client_ends(outputs: Seq<Seq<u8>>, number: nat, more: Seq<u8>)
    requires
        forall|i: int| 0 <= i < outputs.len() ==> (#[trigger] outputs[i]).len() <= usize::MAX,
        3 <= number <= u32::MAX,
    ensures
        replay(output_messages(outputs) + (write_message(Message::ExitSucces) + more)) == (Replay {
            output: outputs.flatten(),
            rest: more,
            exit: Some(ExitCode::Success),
        }),
        replay(output_messages(outputs) + (write_message(Message::ExitFailure) + more)) == (Replay {
            output: outputs.flatten(),
            rest: more,
            exit: Some(ExitCode::Failure),
        }),
        replay(output_messages(outputs) + (write_varint(number) + more)) == (Replay {
            output: outputs.flatten(),
            rest: write_varint(number) + more,
            exit: Some(ExitCode::Failure),
        }),
{
    let none: Seq<u8> = seq![];
    assert(outputs.flatten() + none =~= outputs.flatten());
    read_message_inverts_write(Message::ExitSucces, more);
    output_is_shown_at_once(outputs, write_message(Message::ExitSucces) + more);
    read_message_inverts_write(Message::ExitFailure, more);
    output_is_shown_at_once(outputs, write_message(Message::ExitFailure) + more);
    other_numbers_are_malformed(number, more);
    output_is_shown_at_once(outputs, write_varint(number) + more);
}

} // verus!
