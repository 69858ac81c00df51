use cg_clif_daemon::client::compiler_arguments;
use cg_clif_daemon::client::route;
use cg_clif_daemon::client::ClientSession;
use cg_clif_daemon::client::ConnectAction;
use cg_clif_daemon::client::Connection;
use cg_clif_daemon::client::ExitCode;
use cg_clif_daemon::client::HandledOptions;
use cg_clif_daemon::client::Route;
use cg_clif_daemon::wire::JsonStreamMessage;

fn strings(texts: &[&str]) -> Vec<String> {
    texts.iter().map(|text| text.to_string()).collect()
}

fn normal(print: bool, free: &[&str]) -> HandledOptions {
    HandledOptions::Normal { print, free: strings(free) }
}

/// Two pieces of output, and a success.
fn transcript() -> Vec<u8> {
    let mut bytes = JsonStreamMessage::OutputBytes(b"warning: ".to_vec()).encode();
    bytes.extend(JsonStreamMessage::OutputBytes(vec![b'x'; 200]).encode());
    bytes.extend(JsonStreamMessage::ExitSucces.encode());
    bytes
}

fn shown() -> Vec<u8> {
    let mut output = b"warning: ".to_vec();
    output.extend([b'x'; 200]);
    output
}

#[test]
fn ordinary_compilations_go_to_the_daemon() {
    assert_eq!(route(&normal(false, &["src/lib.rs"])), Route::Daemon);
    assert_eq!(route(&normal(false, &[])), Route::Daemon);
    assert_eq!(route(&normal(false, &["--", "-x", "a-"])), Route::Daemon);
}

#[test]
fn other_invocations_stay_with_the_client() {
    assert_eq!(route(&normal(true, &["src/lib.rs"])), Route::Local);
    assert_eq!(route(&normal(false, &["-"])), Route::Local);
    assert_eq!(route(&normal(false, &["a.rs", "-"])), Route::Local);
    assert_eq!(route(&HandledOptions::HelpOnly), Route::Local);
    assert_eq!(route(&HandledOptions::Done), Route::Exit);
}

#[test]
fn the_name_of_the_program_is_no_argument() {
    let args = strings(&["rustc", "a.rs", "-O"]);
    assert_eq!(compiler_arguments(&args), strings(&["a.rs", "-O"]));
    assert_eq!(compiler_arguments(&strings(&["rustc"])), strings(&[]));
    assert_eq!(compiler_arguments(&strings(&[])), strings(&[]));
}

#[test]
fn one_daemon_is_started() {
    let mut connection = Connection::new();
    assert_eq!(connection.failed(), ConnectAction::StartDaemon);
    assert_eq!(connection.failed(), ConnectAction::GiveUp);
    assert_eq!(connection.failed(), ConnectAction::GiveUp);
}

#[test]
fn a_transcript_is_shown_and_ends_the_session() {
    let mut session = ClientSession::new();
    let output = session.receive(&transcript());
    assert_eq!(output, shown());
    assert_eq!(session.exit, Some(ExitCode::Success));
    assert_eq!(session.close(), ExitCode::Success);
    assert_eq!(session.pending, b"");
}

#[test]
fn chunks_make_no_difference() {
    for size in [1, 2, 3, 7, 64, 150] {
        let mut session = ClientSession::new();
        let mut output = Vec::new();
        for chunk in transcript().chunks(size) {
            assert_eq!(session.exit, None);
            output.extend(session.receive(chunk));
        }
        assert_eq!(output, shown());
        assert_eq!(session.exit, Some(ExitCode::Success));
    }
}

#[test]
fn a_cut_transcript_is_a_failure() {
    let bytes = transcript();
    for n in 0..bytes.len() {
        let mut session = ClientSession::new();
        let output = session.receive(&bytes[..n]);
        assert!(shown().starts_with(&output));
        assert_eq!(session.exit, None);
        assert_eq!(session.close(), ExitCode::Failure);
    }
}

#[test]
fn a_failure_is_reported() {
    let mut session = ClientSession::new();
    let mut bytes = JsonStreamMessage::OutputBytes(b"error".to_vec()).encode();
    bytes.extend(JsonStreamMessage::ExitFailure.encode());
    assert_eq!(session.receive(&bytes), b"error");
    assert_eq!(session.close(), ExitCode::Failure);
}

#[test]
fn nonsense_is_a_failure() {
    let mut session = ClientSession::new();
    let mut bytes = JsonStreamMessage::OutputBytes(b"so far".to_vec()).encode();
    bytes.push(9);
    bytes.extend(JsonStreamMessage::ExitSucces.encode());
    assert_eq!(session.receive(&bytes), b"so far");
    assert_eq!(session.exit, Some(ExitCode::Failure));
    assert_eq!(session.pending, [9, 0]);
}

#[test]
fn nothing_is_shown_after_the_end() {
    let mut session = ClientSession::new();
    let mut bytes = transcript();
    bytes.extend(JsonStreamMessage::OutputBytes(b"late".to_vec()).encode());
    assert_eq!(session.receive(&bytes), shown());
    assert_eq!(session.pending, JsonStreamMessage::OutputBytes(b"late".to_vec()).encode());
    assert_eq!(session.receive(&JsonStreamMessage::ExitFailure.encode()), b"");
    assert_eq!(session.close(), ExitCode::Success);
}

#[test]
fn clients_end_without_the_daemon() {
    assert_eq!(Route::Exit.exit_code(), Some(ExitCode::Success));
    assert_eq!(Route::Local.exit_code(), Some(ExitCode::Success));
    assert_eq!(Route::Daemon.exit_code(), None);
    assert_eq!(ConnectAction::GiveUp.exit_code(), Some(ExitCode::Failure));
    assert_eq!(ConnectAction::StartDaemon.exit_code(), None);
}
