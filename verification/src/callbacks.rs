//! Making the compiler see the world as the client does.
//!
//! The daemon runs in a directory and in an environment of its own.  Before it compiles on behalf
//! of a client, the path of the input is taken relative to the working directory of the client,
//! and the variables of the client are laid over the logical environment of the session.

use crate::client::CompileTask;
use crate::paths::push_path;
use crate::text::same_text;
use vstd::prelude::*;

verus! {

/// What is to be compiled.
pub enum Input {
    /// The file at this path.
    File(Vec<u8>),
    /// This text.
    Str(String),
}

/// Variables and their values, in the order in which they were first set.
pub type Variables = Seq<(Seq<char>, Seq<char>)>;

/// The variables in `env`.
pub open spec fn variables(env: Seq<(String, String)>) -> Variables {
    env.map_values(|variable: (String, String)| (variable.0@, variable.1@))
}

/// Sets `key` to `value`: in its old place if it was set before, and else at the end.
pub open spec fn set(env: Variables, key: Seq<char>, value: Seq<char>) -> Variables
    decreases env.len(),
{
    if env.len() == 0 {
        seq![(key, value)]
    } else if env[0].0 == key {
        env.update(0, (key, value))
    } else {
        seq![env[0]] + set(env.skip(1), key, value)
    }
}

/// Sets the variables in `new`, one after the other.
pub open spec fn set_all(env: Variables, new: Variables) -> Variables
    decreases new.len(),
{
    if new.len() == 0 {
        env
    } else {
        set(set_all(env, new.drop_last()), new.last().0, new.last().1)
    }
}

/// What `key` is set to, if it is: the first entry for it counts.
pub open spec fn lookup(env: Variables, key: Seq<char>) -> Option<Seq<char>>
    decreases env.len(),
{
    if env.len() == 0 {
        None
    } else if env[0].0 == key {
        Some(env[0].1)
    } else {
        lookup(env.skip(1), key)
    }
}

/// The last value that `new` gives to `key`, if it gives any.
pub open spec fn last_value(new: Variables, key: Seq<char>) -> Option<Seq<char>>
    decreases new.len(),
{
    if new.len() == 0 {
        None
    } else if new.last().0 == key {
        Some(new.last().1)
    } else {
        last_value(new.drop_last(), key)
    }
}

/// No variable occurs twice.
pub open spec fn no_duplicates(env: Variables) -> bool {
    forall|i: int, j: int| 0 <= i < j < env.len() ==> (#[trigger] env[i]).0 != (#[trigger] env[j]).0
}

/// Sets `key` to `value` in `env`.
fn set_variable(env: &mut Vec<(String, String)>, key: String, value: String)
    ensures
        variables(final(env)@) == set(variables(old(env)@), key@, value@),
{
    let ghost before = variables(env@);
    let mut i: usize = 0;
    assert(before.skip(0) =~= before);
    assert(before.take(0) =~= seq![]);
    assert(seq![] + set(before, key@, value@) =~= set(before, key@, value@));
    while i < env.len()
        invariant
            i <= env.len(),
            *env == *old(env),
            before == variables(env@),
            set(before, key@, value@) == before.take(i as int) + set(
                before.skip(i as int),
                key@,
                value@,
            ),
        decreases env.len() - i,
    {
        assert(before.skip(i as int)[0] == before[i as int]);
        if same_text(env[i].0.as_str(), key.as_str()) {
            assert(before.take(i as int) + before.skip(i as int).update(0, (key@, value@))
                =~= before.update(i as int, (key@, value@)));
            env.set(i, (key, value));
            assert(variables(env@) =~= before.update(i as int, (key@, value@)));
            return;
        }
        assert(before.skip(i as int).skip(1) =~= before.skip(i + 1));
        assert(before.take(i as int) + (seq![before[i as int]] + set(
            before.skip(i + 1),
            key@,
            value@,
        )) =~= before.take(i + 1) + set(before.skip(i + 1), key@, value@));
        i = i + 1;
    }
    assert(before.skip(i as int) =~= seq![]);
    assert(before.take(i as int) =~= before);
    env.push((key, value));
    assert(variables(env@) =~= before + seq![(key@, value@)]);
}

/// The client on whose behalf the daemon compiles.
pub struct DaemonCallbacks {
    /// The environment of the client.
    pub env: Vec<(String, String)>,
    /// The directory that the client was started in.
    pub working_directory: Vec<u8>,
}

impl DaemonCallbacks {
    /// The client that asks for `task`.
    pub fn new(task: &CompileTask) -> (callbacks: Self)
        ensures
            variables(callbacks.env@) == variables(task.env@),
            callbacks.working_directory@ == task.working_directory@,
    {
        let mut env: Vec<(String, String)> = Vec::new();
        for i in 0..task.env.len()
            invariant
                variables(env@) =~= variables(task.env@).take(i as int),
        {
            let ghost before = variables(env@);
            env.push((task.env[i].0.clone(), task.env[i].1.clone()));
            assert(variables(env@) =~= before.push(variables(task.env@)[i as int]));
        }
        assert(variables(task.env@).take(task.env@.len() as int) =~= variables(task.env@));
        let working_directory = task.working_directory.clone();
        assert(working_directory@ =~= task.working_directory@);
        DaemonCallbacks { env, working_directory }
    }

    /// Adapts a compilation session to the client: `input` is what the session compiles, and
    /// `logical_env` is the environment that the code being compiled sees.
    ///
    /// The variables of the client are used up.
    pub fn config(&mut self, input: &mut Input, logical_env: &mut Vec<(String, String)>)
        ensures
            final(self).working_directory == old(self).working_directory,
            final(self).env@.len() == 0,
            match *old(input) {
                Input::File(path) => *final(input) matches Input::File(new_path) && new_path@
                    == crate::paths::join_path(old(self).working_directory@, path@),
                Input::Str(_) => *final(input) == *old(input),
            },
            variables(final(logical_env)@) == set_all(
                variables(old(logical_env)@),
                variables(old(self).env@),
            ),
    {
        match input {
            Input::File(path) => {
                let mut new_path = self.working_directory.clone();
                push_path(&mut new_path, path.as_slice());
                *path = new_path;
            },
            Input::Str(_) => {},
        }
        let mut i: usize = 0;
        let ghost new = variables(self.env@);
        assert(new.take(0) =~= seq![]);
        while i < self.env.len()
            invariant
                i <= self.env.len(),
                self.env@ == old(self).env@,
                self.working_directory == old(self).working_directory,
                new == variables(self.env@),
                variables(logical_env@) == set_all(variables(old(logical_env)@), new.take(i as int)),
            decreases self.env.len() - i,
        {
            let key = self.env[i].0.clone();
            let value = self.env[i].1.clone();
            set_variable(logical_env, key, value);
            assert(new.take(i + 1).drop_last() =~= new.take(i as int));
            assert(new.take(i + 1).last() == new[i as int]);
            i = i + 1;
        }
        assert(new.take(new.len() as int) =~= new);
        self.env.clear();
    }
}

proof fn lemma_lookup_after_set(env: Variables, key: Seq<char>, value: Seq<char>, other: Seq<char>)
    ensures
        lookup(set(env, key, value), other) == (if other == key {
            Some(value)
        } else {
            lookup(env, other)
        }),
    decreases env.len(),
{
    let after = set(env, key, value);
    if env.len() == 0 {
        assert(after =~= seq![(key, value)]);
        assert(after.skip(1) =~= env);
    } else if env[0].0 == key {
        assert(after.skip(1) =~= env.skip(1));
    } else {
        assert(after[0] == env[0]);
        assert(after.skip(1) =~= set(env.skip(1), key, value));
        lemma_lookup_after_set(env.skip(1), key, value, other);
    }
}

/// The code being compiled sees, of each variable, the last value that the client gave it, and of
/// a variable that the client did not have, the value from before.
pub proof fn client_variables_win(env: Variables, new: Variables, key: Seq<char>)
    ensures
        lookup(set_all(env, new), key) == (match last_value(new, key) {
            Some(value) => Some(value),
            None => lookup(env, key),
        }),
    decreases new.len(),
{
    if new.len() > 0 {
        let init = new.drop_last();
        client_variables_win(env, init, key);
        lemma_lookup_after_set(set_all(env, init), new.last().0, new.last().1, key);
    }
}

proof fn lemma_set_positions(env: Variables, key: Seq<char>, value: Seq<char>)
    ensures
        ({
            let after = set(env, key, value);
            &&& env.len() <= after.len() <= env.len() + 1
            &&& forall|i: int| 0 <= i < env.len() ==> (#[trigger] after[i]).0 == env[i].0
            &&& after.len() > env.len() ==> {
                &&& after[env.len() as int].0 == key
                &&& forall|i: int| 0 <= i < env.len() ==> (#[trigger] env[i]).0 != key
            }
        }),
    decreases env.len(),
{
    if env.len() > 0 && env[0].0 != key {
        let tail = env.skip(1);
        lemma_set_positions(tail, key, value);
        let after = set(env, key, value);
        assert forall|i: int| 0 <= i < env.len() implies (#[trigger] after[i]).0 == env[i].0 by {
            if i > 0 {
                assert(after[i] == set(tail, key, value)[i - 1]);
                assert(env[i] == tail[i - 1]);
            }
        }
        if after.len() > env.len() {
            assert(after[env.len() as int] == set(tail, key, value)[tail.len() as int]);
            assert forall|i: int| 0 <= i < env.len() implies (#[trigger] env[i]).0 != key by {
                if i > 0 {
                    assert(env[i] == tail[i - 1]);
                }
            }
        }
    }
}

/// A variable that was set stays in its place, and no variable comes to occur twice.
pub proof fn variables_stay_in_place(env: Variables, new: Variables)
    requires
        no_duplicates(env),
    ensures
        no_duplicates(set_all(env, new)),
        env.len() <= set_all(env, new).len(),
        forall|i: int| 0 <= i < env.len() ==> (#[trigger] set_all(env, new)[i]).0 == env[i].0,
    decreases new.len(),
{
    if new.len() > 0 {
        let init = new.drop_last();
        variables_stay_in_place(env, init);
        let before = set_all(env, init);
        lemma_set_positions(before, new.last().0, new.last().1);
        let after = set_all(env, new);
        assert forall|i: int, j: int| 0 <= i < j < after.len() implies (#[trigger] after[i]).0
            != (#[trigger] after[j]).0 by {
            assert(after[i].0 == before[i].0);
            if j < before.len() {
                assert(after[j].0 == before[j].0);
            }
        }
        assert forall|i: int| 0 <= i < env.len() implies (#[trigger] after[i]).0 == env[i].0 by {
            assert(after[i].0 == before[i].0);
        }
    }
}

/// An input that is given by an absolute path is compiled wherever the client was started.
pub proof fn absolute_inputs_stay(working_directory: Seq<u8>, path: Seq<u8>)
    requires
        crate::paths::is_absolute(path),
    ensures
        crate::paths::join_path(working_directory, path) == path,
{
}

/// Each variable is seen as its name and its value, in its place.
pub proof fn variables_are_seen_in_place(env: Seq<(String, String)>)
    ensures
        variables(env).len() == env.len(),
        forall|i: int|
            0 <= i < env.len() ==> #[trigger] variables(env)[i] == (env[i].0@, env[i].1@),
{
}

proof fn lemma_set_entries(env: Variables, key: Seq<char>, value: Seq<char>)
    requires
        no_duplicates(env),
    ensures
        no_duplicates(set(env, key, value)),
        set(env, key, value).contains((key, value)),
        forall|k: Seq<char>, v: Seq<char>|
            #![trigger set(env, key, value).contains((k, v))]
            #![trigger env.contains((k, v))]
            k != key ==> set(env, key, value).contains((k, v)) == env.contains((k, v)),
{
    let after = set(env, key, value);
    lemma_set_positions(env, key, value);
    let at = lemma_set_updates_or_appends(env, key, value);
    assert(after[at] == (key, value));
    assert forall|k: Seq<char>, v: Seq<char>| k != key implies after.contains((k, v))
        == env.contains((k, v)) by {
        if env.contains((k, v)) {
            let i = choose|i: int| 0 <= i < env.len() && env[i] == (k, v);
            assert(after[i] == (k, v));
        }
        if after.contains((k, v)) {
            let i = choose|i: int| 0 <= i < after.len() && after[i] == (k, v);
            assert(env[i] == (k, v));
        }
    }
    assert forall|i: int, j: int| 0 <= i < j < after.len() implies (#[trigger] after[i]).0 != (
    #[trigger] after[j]).0 by {
        assert(after[i].0 == env[i].0);
    }
}

/// Setting a variable changes one entry, or adds one at the end.  Gives where.
proof fn lemma_set_updates_or_appends(env: Variables, key: Seq<char>, value: Seq<char>) -> (at: int)
    ensures
        0 <= at <= env.len(),
        at < env.len() ==> env[at].0 == key,
        set(env, key, value) == (if at < env.len() {
            env.update(at, (key, value))
        } else {
            env.push((key, value))
        }),
    decreases env.len(),
{
    let after = set(env, key, value);
    if env.len() == 0 {
        assert(after =~= env.push((key, value)));
        0
    } else if env[0].0 == key {
        0
    } else {
        let at = lemma_set_updates_or_appends(env.skip(1), key, value);
        if at < env.len() - 1 {
            assert(after =~= env.update(at + 1, (key, value)));
        } else {
            assert(after =~= env.push((key, value)));
        }
        at + 1
    }
}

/// What the code being compiled sees of a variable that the client gave a value to, and did not give
/// another one later: that value, and only that one.
pub proof fn the_last_value_of_the_client_is_seen(
    env: Variables,
    earlier: Variables,
    key: Seq<char>,
    value: Seq<char>,
    later: Variables,
)
    requires
        no_duplicates(env),
        forall|i: int| 0 <= i < later.len() ==> (#[trigger] later[i]).0 != key,
    ensures
        set_all(env, earlier + seq![(key, value)] + later).contains((key, value)),
        forall|v: Seq<char>| #[trigger]
            set_all(env, earlier + seq![(key, value)] + later).contains((key, v)) ==> v == value,
    decreases later.len(),
{
    let new = earlier + seq![(key, value)] + later;
    let after = set_all(env, new);
    variables_stay_in_place(env, new);
    if later.len() == 0 {
        assert(new.drop_last() =~= earlier);
        variables_stay_in_place(env, earlier);
        lemma_set_entries(set_all(env, earlier), key, value);
    } else {
        let init = earlier + seq![(key, value)] + later.drop_last();
        assert(new.drop_last() =~= init);
        assert(later.last().0 != key);
        the_last_value_of_the_client_is_seen(env, earlier, key, value, later.drop_last());
        variables_stay_in_place(env, init);
        lemma_set_entries(set_all(env, init), later.last().0, later.last().1);
    }
    let at = choose|at: int| 0 <= at < after.len() && after[at] == (key, value);
    assert forall|v: Seq<char>| #[trigger] after.contains((key, v)) implies v == value by {
        let i = choose|i: int| 0 <= i < after.len() && after[i] == (key, v);
        assert(after[i].0 == after[at].0);
    }
}

/// A variable that the client did not have is seen as it was, and not at all where it was not set.
pub proof fn other_variables_are_seen_as_before(
    env: Variables,
    new: Variables,
    key: Seq<char>,
    value: Seq<char>,
)
    requires
        no_duplicates(env),
        forall|i: int| 0 <= i < new.len() ==> (#[trigger] new[i]).0 != key,
    ensures
        set_all(env, new).contains((key, value)) == env.contains((key, value)),
    decreases new.len(),
{
    if new.len() > 0 {
        let init = new.drop_last();
        assert(new.last().0 != key);
        other_variables_are_seen_as_before(env, init, key, value);
        variables_stay_in_place(env, init);
        lemma_set_entries(set_all(env, init), new.last().0, new.last().1);
    }
}

/// The variables of the client are set one after the other: one more of them leaves every other
/// variable where and as it was; it comes last where it was not set before, and else takes the place
/// that it had.
pub proof fn variables_are_set_one_by_one(
    env: Variables,
    new: Variables,
    key: Seq<char>,
    value: Seq<char>,
)
    requires
        no_duplicates(env),
    ensures
        set_all(env, seq![]) == env,
        ({
            let before = set_all(env, new);
            let after = set_all(env, new.push((key, value)));
            &&& (forall|i: int| 0 <= i < before.len() ==> (#[trigger] before[i]).0 != key) ==> after
                == before.push((key, value))
            &&& forall|i: int|
                0 <= i < before.len() && (#[trigger] before[i]).0 == key ==> after == before.update(
                    i,
                    (key, value),
                )
        }),
{
    let before = set_all(env, new);
    assert(new.push((key, value)).drop_last() =~= new);
    variables_stay_in_place(env, new);
    let at = lemma_set_updates_or_appends(before, key, value);
    lemma_set_positions(before, key, value);
    assert forall|i: int| 0 <= i < before.len() && (#[trigger] before[i]).0 == key implies set_all(
        env,
        new.push((key, value)),
    ) == before.update(i, (key, value)) by {
        if at < before.len() {
            assert(before[at].0 == before[i].0);
        } else {
            assert(set(before, key, value).len() > before.len());
        }
    }
}

} // verus!
