use cg_clif_daemon::callbacks::DaemonCallbacks;
use cg_clif_daemon::callbacks::Input;
use cg_clif_daemon::client::CompileTask;

fn variables(pairs: &[(&str, &str)]) -> Vec<(String, String)> {
    pairs.iter().map(|(key, value)| (key.to_string(), value.to_string())).collect()
}

fn configured(directory: &str, path: &str) -> Vec<u8> {
    let mut callbacks =
        DaemonCallbacks { env: Vec::new(), working_directory: directory.as_bytes().to_vec() };
    let mut input = Input::File(path.as_bytes().to_vec());
    callbacks.config(&mut input, &mut Vec::new());
    assert_eq!(callbacks.working_directory, directory.as_bytes());
    match input {
        Input::File(path) => path,
        Input::Str(_) => panic!("a file became a text"),
    }
}

fn overlaid(before: &[(&str, &str)], client: &[(&str, &str)]) -> Vec<(String, String)> {
    let mut callbacks =
        DaemonCallbacks { env: variables(client), working_directory: b"/".to_vec() };
    let mut input = Input::Str("fn main() {}".to_string());
    let mut env = variables(before);
    callbacks.config(&mut input, &mut env);
    assert!(matches!(input, Input::Str(text) if text == "fn main() {}"));
    assert!(callbacks.env.is_empty());
    env
}

#[test]
fn inputs_are_relative_to_the_client() {
    assert_eq!(configured("/home/me/project", "src/lib.rs"), b"/home/me/project/src/lib.rs");
    assert_eq!(configured("/home/me/project/", "lib.rs"), b"/home/me/project/lib.rs");
}

#[test]
fn absolute_inputs_stay_where_they_are() {
    assert_eq!(configured("/home/me/project", "/tmp/a.rs"), b"/tmp/a.rs");
}

#[test]
fn variables_of_the_client_are_laid_over() {
    assert_eq!(overlaid(&[], &[("A", "1"), ("B", "2")]), variables(&[("A", "1"), ("B", "2")]));
    assert_eq!(
        overlaid(&[("A", "0"), ("C", "3")], &[("B", "2"), ("A", "1")]),
        variables(&[("A", "1"), ("C", "3"), ("B", "2")]),
    );
    assert_eq!(overlaid(&[("A", "0")], &[]), variables(&[("A", "0")]));
}

#[test]
fn the_last_value_of_a_variable_counts() {
    assert_eq!(overlaid(&[], &[("A", "1"), ("B", ""), ("A", "2")]), variables(&[("A", "2"), ("B", "")]));
}

#[test]
fn the_task_tells_who_the_client_is() {
    let task = CompileTask {
        args: vec!["rustc".to_string()],
        env: variables(&[("A", "1"), ("B", "2")]),
        working_directory: b"/home/me".to_vec(),
    };
    let callbacks = DaemonCallbacks::new(&task);
    assert_eq!(callbacks.env, variables(&[("A", "1"), ("B", "2")]));
    assert_eq!(callbacks.working_directory, b"/home/me");
}
