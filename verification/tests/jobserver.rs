use cg_clif_daemon::jobserver::discard_inherited_jobserver;
use cg_clif_daemon::jobserver::strip_jobserver_flags;
use cg_clif_daemon::jobserver::JobserverPipe;
use cg_clif_daemon::jobserver::MalformedDescriptor;

fn pipe(value: &str) -> Result<Option<JobserverPipe>, MalformedDescriptor> {
    discard_inherited_jobserver(Some(value), None, None)
}

fn found(read: i32, write: i32) -> Result<Option<JobserverPipe>, MalformedDescriptor> {
    Ok(Some(JobserverPipe { read, write }))
}

#[test]
fn announced_pipes_are_found() {
    assert_eq!(pipe("--jobserver-auth=3,4"), found(3, 4));
    assert_eq!(pipe("--jobserver-fds=3,4"), found(3, 4));
    assert_eq!(pipe("-j -- --jobserver-auth=10,11 -k"), found(10, 11));
    assert_eq!(pipe("--jobserver-auth=+3,04"), found(3, 4));
    assert_eq!(pipe("--jobserver-auth=0,2147483647"), found(0, 2147483647));
}

#[test]
fn the_last_announcement_counts() {
    assert_eq!(pipe("--jobserver-auth=3,4 --jobserver-fds=5,6"), found(5, 6));
    assert_eq!(pipe("--jobserver-fds=5,6 --jobserver-auth=3,4"), found(3, 4));
    assert_eq!(pipe("--jobserver-auth=3,4 --jobserver-auth=fifo:/tmp/f"), Ok(None));
}

#[test]
fn the_first_variable_counts() {
    let flags = ["--jobserver-auth=3,4", "--jobserver-auth=5,6", "--jobserver-auth=7,8"];
    let [a, b, c] = flags.map(Some);
    assert_eq!(discard_inherited_jobserver(a, b, c), found(3, 4));
    assert_eq!(discard_inherited_jobserver(None, b, c), found(5, 6));
    assert_eq!(discard_inherited_jobserver(None, None, c), found(7, 8));
    assert_eq!(discard_inherited_jobserver(None, None, None), Ok(None));
    assert_eq!(discard_inherited_jobserver(Some(""), b, c), Ok(None));
}

#[test]
fn other_announcements_are_no_pipes() {
    assert_eq!(pipe(""), Ok(None));
    assert_eq!(pipe("-j4 -k"), Ok(None));
    assert_eq!(pipe("x--jobserver-auth=3,4"), Ok(None));
    assert_eq!(pipe("--jobserver-auth=fifo:/tmp/f,1"), Ok(None));
    assert_eq!(pipe("--jobserver-auth=3"), Ok(None));
    assert_eq!(pipe("--jobserver-auth="), Ok(None));
    assert_eq!(pipe("--jobserver-auth=-2,-2"), Ok(None));
    assert_eq!(pipe("--jobserver-auth=3,-1"), Ok(None));
    assert_eq!(pipe("--jobserver-auth=-2147483648,4"), Ok(None));
}

#[test]
fn descriptors_must_be_numbers() {
    for auth in ["a,b", ",4", "3,", "3,4,5", "3,+", "--3,4", "2147483648,4", "-2147483649,4", "3,x"] {
        assert_eq!(pipe(&format!("--jobserver-auth={}", auth)), Err(MalformedDescriptor));
    }
    assert_eq!(pipe("--jobserver-auth=99999999999999999999999,4"), Err(MalformedDescriptor));
}

#[test]
fn only_open_pipes_are_closed() {
    let pipe = JobserverPipe { read: 3, write: 4 };
    assert!(pipe.is_to_be_closed(true, true));
    assert!(!pipe.is_to_be_closed(true, false));
    assert!(!pipe.is_to_be_closed(false, true));
    assert!(!pipe.is_to_be_closed(false, false));
}

#[test]
fn flags_are_stripped_in_reverse() {
    assert_eq!(strip_jobserver_flags("-j --jobserver-auth=3,4 -k"), "-k -j");
    assert_eq!(strip_jobserver_flags("--jobserver-fds=3,4"), "");
    assert_eq!(strip_jobserver_flags("--jobserver-style=fifo a --job"), "--job a");
    assert_eq!(strip_jobserver_flags(""), "");
    assert_eq!(strip_jobserver_flags("a  b"), "b  a");
    assert_eq!(strip_jobserver_flags("\u{e9} \u{fc}"), "\u{fc} \u{e9}");
}

#[test]
fn nothing_is_announced_after_stripping() {
    for value in ["--jobserver-auth=3,4 --jobserver-fds=5,6", "-k --jobserver-auth=a", "", "-j2"] {
        assert_eq!(pipe(&strip_jobserver_flags(value)), Ok(None));
    }
}

#[test]
fn stripping_twice_keeps_the_order() {
    let once = strip_jobserver_flags("a --jobserver-auth=3,4 b c");
    assert_eq!(once, "c b a");
    assert_eq!(strip_jobserver_flags(&once), "a b c");
}
