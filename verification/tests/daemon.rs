use cg_clif_daemon::client::ClientSession;
use cg_clif_daemon::client::ExitCode;
use cg_clif_daemon::daemon::frame_output;
use cg_clif_daemon::daemon::reply;
use cg_clif_daemon::daemon::role;
use cg_clif_daemon::daemon::Phase;
use cg_clif_daemon::daemon::Role;
use cg_clif_daemon::wire::JsonStreamMessage;

#[test]
fn the_environment_decides_the_role() {
    assert_eq!(role(Some("1")), Role::Daemon);
    assert_eq!(role(Some("0")), Role::Client);
    assert_eq!(role(Some("11")), Role::Client);
    assert_eq!(role(Some("")), Role::Client);
    assert_eq!(role(None), Role::Client);
}

#[test]
fn a_second_daemon_gives_way() {
    let phase = Phase::Probe.next(true);
    assert_eq!(phase, Phase::Initialize { listening: false });
    assert_eq!(phase.next(true), Phase::Exit);
    assert_eq!(phase.next(true).next(true), Phase::Exit);
    assert_eq!(phase.next(true).next(false), Phase::Exit);
}

#[test]
fn a_first_daemon_serves() {
    let phase = Phase::Probe.next(false);
    assert_eq!(phase, Phase::Bind);
    let phase = phase.next(true);
    assert_eq!(phase, Phase::Initialize { listening: true });
    let phase = phase.next(true);
    assert_eq!(phase, Phase::Serve);
    assert_eq!(phase.next(true), Phase::Serve);
}

#[test]
fn a_daemon_without_a_socket_ends() {
    let phase = Phase::Probe.next(false).next(false);
    assert_eq!(phase, Phase::Initialize { listening: false });
    assert_eq!(phase.next(true), Phase::Exit);
}

#[test]
fn only_a_success_is_reported_as_one() {
    assert!(matches!(reply(Some(ExitCode::Success)), JsonStreamMessage::ExitSucces));
    assert!(matches!(reply(Some(ExitCode::Failure)), JsonStreamMessage::ExitFailure));
    assert!(matches!(reply(None), JsonStreamMessage::ExitFailure));
}

#[test]
fn output_is_framed_whole() {
    let (bytes, accepted) = frame_output(b"note");
    assert_eq!(bytes, [2, 4, b'n', b'o', b't', b'e']);
    assert_eq!(accepted, 4);
    let (bytes, accepted) = frame_output(&[0; 1000]);
    assert_eq!(bytes.len(), 1003);
    assert_eq!(accepted, 1000);
    assert_eq!(frame_output(b""), (vec![2, 0], 0));
}

#[test]
fn the_client_learns_how_it_ended() {
    for compiler in [None, Some(ExitCode::Failure), Some(ExitCode::Success)] {
        let mut session = ClientSession::new();
        let mut sent = Vec::new();
        for piece in ["one ", "", "two"] {
            sent.extend(frame_output(piece.as_bytes()).0);
        }
        sent.extend(reply(compiler).encode());
        assert_eq!(session.receive(&sent), b"one two");
        assert_eq!(session.close() == ExitCode::Success, compiler == Some(ExitCode::Success));
    }
}

#[test]
fn a_daemon_that_gives_way_succeeds() {
    assert_eq!(Phase::Exit.exit_code(), Some(ExitCode::Success));
    for phase in [Phase::Probe, Phase::Bind, Phase::Initialize { listening: true }, Phase::Serve] {
        assert_eq!(phase.exit_code(), None);
    }
}
