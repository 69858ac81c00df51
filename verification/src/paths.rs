//! Paths, as sequences of bytes, and the files that a daemon keeps in the runtime directory.

use vstd::prelude::*;
use vstd::string::StringSliceAdditionalSpecFns;
use vstd::utf8::encode_utf8;

verus! {

/// The byte between the parts of a path: a slash.
pub const SEPARATOR: u8 = 0x2f;

/// `path` starts at the root.
pub open spec fn is_absolute(path: Seq<u8>) -> bool {
    path.len() > 0 && path[0] == SEPARATOR
}

/// Where `path` leads, seen from the directory `base`.
pub open spec fn join_path(base: Seq<u8>, path: Seq<u8>) -> Seq<u8> {
    if is_absolute(path) {
        path
    } else if base.len() == 0 || base.last() == SEPARATOR {
        base + path
    } else {
        base.push(SEPARATOR) + path
    }
}

/// Goes from `base` to `path`: an absolute `path` replaces `base`, and any other is appended to
/// it, with a separator between the two unless `base` is empty or ends in one.
pub fn push_path(base: &mut Vec<u8>, path: &[u8])
    ensures
        final(base)@ == join_path(old(base)@, path@),
{
    let absolute: bool = path.len() > 0 && path[0] == SEPARATOR;
    if absolute {
        base.clear();
    } else if base.len() > 0 && base[base.len() - 1] != SEPARATOR {
        base.push(SEPARATOR);
    }
    let ghost head = base@;
    base.extend_from_slice(path);
    assert(base@ =~= head + path@);
}

/// Where the file called `name` is in the directory `runtime_dir`.
fn path_in(runtime_dir: &[u8], name: &str) -> (path: Vec<u8>)
    ensures
        path@ == join_path(runtime_dir@, name.spec_bytes()),
{
    let mut path: Vec<u8> = Vec::new();
    path.extend_from_slice(runtime_dir);
    assert(path@ =~= runtime_dir@);
    push_path(&mut path, name.as_bytes());
    path
}

/// The socket that the daemon listens on.
pub fn socket_path(runtime_dir: &[u8]) -> (path: Vec<u8>)
    ensures
        path@ == join_path(runtime_dir@, encode_utf8("cg_clif_daemon"@)),
{
    path_in(runtime_dir, "cg_clif_daemon")
}

/// The file that a daemon locks while it takes the socket over.
pub fn lock_path(runtime_dir: &[u8]) -> (path: Vec<u8>)
    ensures
        path@ == join_path(runtime_dir@, encode_utf8("cg_clif_daemon_lock"@)),
{
    path_in(runtime_dir, "cg_clif_daemon_lock")
}

/// The file that the daemon appends its output to.
pub fn log_path(runtime_dir: &[u8]) -> (path: Vec<u8>)
    ensures
        path@ == join_path(runtime_dir@, encode_utf8("cg_clif_daemon_log"@)),
{
    path_in(runtime_dir, "cg_clif_daemon_log")
}

/// The socket on which a daemon that is starting up reports to the process that started it.
pub fn notify_path(directory: &[u8]) -> (path: Vec<u8>)
    ensures
        path@ == join_path(directory@, encode_utf8("sock"@)),
{
    path_in(directory, "sock")
}

/// Two different relative paths lead to different places from the same directory.
pub proof fn relative_paths_stay_apart(base: Seq<u8>, a: Seq<u8>, b: Seq<u8>)
    requires
        !is_absolute(a),
        !is_absolute(b),
        a != b,
    ensures
        join_path(base, a) != join_path(base, b),
{
    let head = if base.len() == 0 || base.last() == SEPARATOR {
        base
    } else {
        base.push(SEPARATOR)
    };
    if head + a == head + b {
        assert(a =~= (head + a).skip(head.len() as int));
        assert(b =~= (head + b).skip(head.len() as int));
    }
}

/// Whatever the runtime directory is, the socket, the lock file and the log file are three
/// different files.
pub proof fn runtime_files_are_distinct(runtime_dir: Seq<u8>)
    ensures
        ({
            let socket = join_path(runtime_dir, encode_utf8("cg_clif_daemon"@));
            let lock = join_path(runtime_dir, encode_utf8("cg_clif_daemon_lock"@));
            let log = join_path(runtime_dir, encode_utf8("cg_clif_daemon_log"@));
            socket != lock && lock != log && log != socket
        }),
{
    reveal_strlit("cg_clif_daemon");
    reveal_strlit("cg_clif_daemon_lock");
    reveal_strlit("cg_clif_daemon_log");
    vstd::utf8::is_ascii_chars_encode_utf8("cg_clif_daemon"@);
    vstd::utf8::is_ascii_chars_encode_utf8("cg_clif_daemon_lock"@);
    vstd::utf8::is_ascii_chars_encode_utf8("cg_clif_daemon_log"@);
    let socket = encode_utf8("cg_clif_daemon"@);
    let lock = encode_utf8("cg_clif_daemon_lock"@);
    let log = encode_utf8("cg_clif_daemon_log"@);
    assert(socket.len() == 14 && lock.len() == 19 && log.len() == 18);
    assert(socket[0] == 'c' as u8 && lock[0] == 'c' as u8 && log[0] == 'c' as u8);
    relative_paths_stay_apart(runtime_dir, socket, lock);
    relative_paths_stay_apart(runtime_dir, lock, log);
    relative_paths_stay_apart(runtime_dir, log, socket);
}

/// Going on from a directory: an absolute path leads away from it; any other is found after the
/// directory and a slash, which is not doubled where the directory ends in one, and which an empty
/// directory does not get.
pub proof fn how_paths_are_pushed(base: Seq<u8>, path: Seq<u8>)
    ensures
        path.len() > 0 && path[0] == '/' as u8 ==> join_path(base, path) == path,
        !(path.len() > 0 && path[0] == '/' as u8) ==> {
            let slashes: int = if base.len() == 0 || base.last() == '/' as u8 {
                0
            } else {
                1
            };
            let joined = join_path(base, path);
            &&& joined.len() == base.len() + slashes + path.len()
            &&& base =~= joined.take(base.len() as int)
            &&& path =~= joined.skip(base.len() + slashes)
            &&& slashes == 1 ==> joined[base.len() as int] == '/' as u8
        },
{
}

/// It makes no difference whether two steps are taken one after the other, or put together first.
pub proof fn steps_can_be_put_together(a: Seq<u8>, b: Seq<u8>, c: Seq<u8>)
    ensures
        join_path(join_path(a, b), c) == join_path(a, join_path(b, c)),
{
    if !is_absolute(c) {
        if b.len() > 0 {
            assert(join_path(a, b).last() == b.last());
        }
        assert(join_path(join_path(a, b), c) =~= join_path(a, join_path(b, c)));
    }
}

} // verus!
