use cg_clif_daemon::paths::lock_path;
use cg_clif_daemon::paths::log_path;
use cg_clif_daemon::paths::notify_path;
use cg_clif_daemon::paths::push_path;
use cg_clif_daemon::paths::socket_path;
use std::path::PathBuf;

fn pushed(base: &str, path: &str) -> String {
    let mut bytes = base.as_bytes().to_vec();
    push_path(&mut bytes, path.as_bytes());
    String::from_utf8(bytes).unwrap()
}

#[test]
fn runtime_files_have_names() {
    assert_eq!(socket_path(b"/run/user/1000"), b"/run/user/1000/cg_clif_daemon");
    assert_eq!(lock_path(b"/run/user/1000"), b"/run/user/1000/cg_clif_daemon_lock");
    assert_eq!(log_path(b"/run/user/1000/"), b"/run/user/1000/cg_clif_daemon_log");
    assert_eq!(socket_path(b""), b"cg_clif_daemon");
    assert_eq!(notify_path(b"/tmp/.tmpabc"), b"/tmp/.tmpabc/sock");
}

#[test]
fn paths_are_pushed_as_by_std() {
    for base in ["", "/", "/a", "/a/", "a/b", "a//"] {
        for path in ["", "/", "b", "/b", "b/", "../b", "./b", "//b"] {
            let mut expected = PathBuf::from(base);
            expected.push(path);
            assert_eq!(pushed(base, path), expected.to_str().unwrap());
        }
    }
}

#[test]
fn different_files_stay_different() {
    for directory in ["", "/", "/run", "/run/"] {
        let socket = socket_path(directory.as_bytes());
        let lock = lock_path(directory.as_bytes());
        let log = log_path(directory.as_bytes());
        assert_ne!(socket, lock);
        assert_ne!(lock, log);
        assert_ne!(log, socket);
    }
}
