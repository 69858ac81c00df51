//! The job server of the `make` or `cargo` that a daemon happens to be started under.
//!
//! A daemon outlives the build that started it, so it must not hold on to the job server of that
//! build: it closes the pipe, and takes the flags that speak of it out of its environment.

use crate::text::has_prefix;
use crate::text::join_texts;
use crate::text::split_text;
use crate::text::texts;
use vstd::prelude::*;

verus! {

/// The file descriptors of the pipe through which a job server hands out its tokens.
#[derive(Clone, Copy, PartialEq, Eq, Debug)]
pub struct JobserverPipe {
    pub read: i32,
    pub write: i32,
}

/// A job server was announced by something that is not a pair of numbers.
#[derive(Clone, Copy, PartialEq, Eq, Debug)]
pub struct MalformedDescriptor;

/// What `flag` says of a job server: the rest of it after one of the two ways to announce one.
pub open spec fn auth_of(flag: Seq<char>) -> Option<Seq<char>> {
    if "--jobserver-auth="@.is_prefix_of(flag) {
        Some(flag.skip("--jobserver-auth="@.len() as int))
    } else if "--jobserver-fds="@.is_prefix_of(flag) {
        Some(flag.skip("--jobserver-fds="@.len() as int))
    } else {
        None
    }
}

/// What the last flag that announces a job server says of it.
pub open spec fn last_auth(flags: Seq<Seq<char>>) -> Option<Seq<char>>
    decreases flags.len(),
{
    if flags.len() == 0 {
        None
    } else if auth_of(flags.last()) is Some {
        auth_of(flags.last())
    } else {
        last_auth(flags.drop_last())
    }
}

/// The text before and the text after the first `at`, if there is one.
pub open spec fn cut(text: Seq<char>, at: char) -> Option<(Seq<char>, Seq<char>)>
    decreases text.len(),
{
    if text.len() == 0 {
        None
    } else if text[0] == at {
        Some((seq![], text.skip(1)))
    } else {
        match cut(text.skip(1), at) {
            Some((before, after)) => Some((seq![text[0]] + before, after)),
            None => None,
        }
    }
}

/// `c` is a decimal digit.
pub open spec fn is_digit(c: char) -> bool {
    '0' <= c <= '9'
}

/// The number that a sequence of decimal digits stands for.
pub open spec fn decimal(digits: Seq<char>) -> nat
    decreases digits.len(),
{
    if digits.len() == 0 {
        0
    } else {
        10 * decimal(digits.drop_last()) + (digits.last() as nat - '0' as nat) as nat
    }
}

/// `text` begins with a sign.
pub open spec fn is_signed(text: Seq<char>) -> bool {
    text.len() > 0 && (text[0] == '-' || text[0] == '+')
}

/// What comes after the sign of `text`, if it has one.
pub open spec fn unsigned(text: Seq<char>) -> Seq<char> {
    if is_signed(text) {
        text.skip(1)
    } else {
        text
    }
}

/// `text` consists of decimal digits, and there is at least one.
pub open spec fn is_decimal(text: Seq<char>) -> bool {
    text.len() > 0 && forall|i: int| 0 <= i < text.len() ==> is_digit(#[trigger] text[i])
}

/// The number of 32 bits that `text` stands for: decimal digits, at least one, after at most one
/// sign.
pub open spec fn number(text: Seq<char>) -> Option<int> {
    let magnitude = decimal(unsigned(text));
    let value = if is_signed(text) && text[0] == '-' {
        -magnitude
    } else {
        magnitude as int
    };
    if is_decimal(unsigned(text)) && i32::MIN <= value <= i32::MAX {
        Some(value)
    } else {
        None
    }
}

/// The pipe that `auth` announces.  There is none where `auth` names a fifo, where it lacks a
/// comma, or where a descriptor is negative.
pub open spec fn announced_pipe(auth: Seq<char>) -> Result<Option<(int, int)>, MalformedDescriptor> {
    if "fifo:"@.is_prefix_of(auth) {
        Ok(None)
    } else {
        match cut(auth, ',') {
            None => Ok(None),
            Some((read, write)) => match (number(read), number(write)) {
                (Some(read), Some(write)) => if read < 0 || write < 0 {
                    Ok(None)
                } else {
                    Ok(Some((read, write)))
                },
                _ => Err(MalformedDescriptor),
            },
        }
    }
}

/// The pipe that the flags in `value`, with spaces between them, announce.
pub open spec fn inherited_pipe(value: Seq<char>) -> Result<Option<(int, int)>, MalformedDescriptor> {
    match last_auth(crate::text::split(value, ' ')) {
        Some(auth) => announced_pipe(auth),
        None => Ok(None),
    }
}

/// The descriptors of a pipe, as numbers.
pub open spec fn pipe_view(pipe: Result<Option<JobserverPipe>, MalformedDescriptor>) -> Result<
    Option<(int, int)>,
    MalformedDescriptor,
> {
    match pipe {
        Ok(Some(pipe)) => Ok(Some((pipe.read as int, pipe.write as int))),
        Ok(None) => Ok(None),
        Err(error) => Err(error),
    }
}

/// `flag` has nothing to do with a job server.
pub open spec fn is_kept(flag: Seq<char>) -> bool {
    !"--jobserver"@.is_prefix_of(flag)
}

/// The flags in `value` that have nothing to do with a job server, the last one first.
pub open spec fn stripped(value: Seq<char>) -> Seq<char> {
    crate::text::join(
        crate::text::split(value, ' ').reverse().filter(|flag: Seq<char>| is_kept(flag)),
        ' ',
    )
}

/// What `flag` says of a job server, if anything.
fn find_auth(flag: &str) -> (auth: Option<&str>)
    ensures
        match auth {
            Some(auth) => auth_of(flag@) == Some(auth@),
            None => auth_of(flag@) is None,
        },
{
    if has_prefix(flag, "--jobserver-auth=") {
        Some(flag.substring_char("--jobserver-auth=".unicode_len(), flag.unicode_len()))
    } else if has_prefix(flag, "--jobserver-fds=") {
        Some(flag.substring_char("--jobserver-fds=".unicode_len(), flag.unicode_len()))
    } else {
        None
    }
}

proof fn lemma_decimal_grows(digits: Seq<char>, n: int)
    requires
        0 <= n <= digits.len(),
        forall|i: int| 0 <= i < digits.len() ==> is_digit(#[trigger] digits[i]),
    ensures
        decimal(digits.take(n)) <= decimal(digits),
    decreases digits.len() - n,
{
    if n == digits.len() {
        assert(digits.take(n) =~= digits);
    } else {
        lemma_decimal_grows(digits, n + 1);
        assert(digits.take(n + 1).drop_last() =~= digits.take(n));
    }
}

/// Reads a number of 32 bits.
fn read_number(text: &str) -> (value: Option<i32>)
    ensures
        match value {
            Some(value) => number(text@) == Some(value as int),
            None => number(text@) is None,
        },
{
    let chars = crate::text::chars_of(text);
    let signed: bool = chars.len() > 0 && (chars[0] == '-' || chars[0] == '+');
    let negative: bool = signed && chars[0] == '-';
    let first: usize = if signed {
        1
    } else {
        0
    };
    let ghost digits = unsigned(text@);
    if chars.len() == first {
        return None;
    }
    let mut value: i64 = 0;
    let mut i: usize = first;
    assert(digits.take(0) =~= seq![]);
    while i < chars.len()
        invariant
            chars@ == text@,
            digits == unsigned(text@),
            first == (if is_signed(text@) {
                1int
            } else {
                0int
            }),
            first <= i <= chars.len(),
            forall|j: int| 0 <= j < i - first ==> is_digit(#[trigger] digits[j]),
            value == decimal(digits.take(i - first)),
            0 <= value <= 0x8000_0000,
        decreases chars.len() - i,
    {
        let c = chars[i];
        assert(c == digits[i - first]);
        if c < '0' || c > '9' {
            assert(!is_digit(digits[i - first]));
            return None;
        }
        assert(digits.take(i + 1 - first).drop_last() =~= digits.take(i - first));
        value = 10 * value + (c as i64 - '0' as i64);
        i = i + 1;
        if value > 0x8000_0000 {
            proof {
                if is_decimal(digits) {
                    lemma_decimal_grows(digits, i - first);
                }
            }
            return None;
        }
    }
    assert(digits.take(digits.len() as int) =~= digits);
    if negative {
        Some((-value) as i32)
    } else if value < 0x8000_0000 {
        Some(value as i32)
    } else {
        None
    }
}

/// The text before and the text after the first comma, if there is one.
fn cut_at_comma(text: &str) -> (parts: Option<(&str, &str)>)
    ensures
        match parts {
            Some((before, after)) => cut(text@, ',') == Some((before@, after@)),
            None => cut(text@, ',') is None,
        },
{
    let chars = crate::text::chars_of(text);
    let mut i: usize = 0;
    assert(text@.skip(0) =~= text@);
    while i < chars.len()
        invariant
            chars@ == text@,
            i <= chars.len(),
            cut(text@, ',') == (match cut(text@.skip(i as int), ',') {
                Some((before, after)) => Some((text@.take(i as int) + before, after)),
                None => None,
            }),
        decreases chars.len() - i,
    {
        assert(text@.skip(i as int).skip(1) =~= text@.skip(i + 1));
        if chars[i] == ',' {
            let ghost none: Seq<char> = seq![];
            assert(text@.take(i as int) + none =~= text@.subrange(0, i as int));
            assert(text@.skip(i + 1) =~= text@.subrange(i + 1, text@.len() as int));
            return Some((text.substring_char(0, i), text.substring_char(i + 1, chars.len())));
        }
        proof {
            if let Some((before, after)) = cut(text@.skip(i + 1), ',') {
                assert(text@.take(i as int) + (seq![text@[i as int]] + before) =~= text@.take(i + 1)
                    + before);
            }
        }
        i = i + 1;
    }
    None
}

/// The pipe that `auth` announces.
fn read_pipe(auth: &str) -> (pipe: Result<Option<JobserverPipe>, MalformedDescriptor>)
    ensures
        pipe_view(pipe) == announced_pipe(auth@),
{
    if has_prefix(auth, "fifo:") {
        return Ok(None);
    }
    match cut_at_comma(auth) {
        None => Ok(None),
        Some((read, write)) => match (read_number(read), read_number(write)) {
            (Some(read), Some(write)) => if read < 0 || write < 0 {
                Ok(None)
            } else {
                Ok(Some(JobserverPipe { read, write }))
            },
            _ => Err(MalformedDescriptor),
        },
    }
}

/// The pipe that the flags in `value` announce.
fn find_pipe(value: &str) -> (pipe: Result<Option<JobserverPipe>, MalformedDescriptor>)
    ensures
        pipe_view(pipe) == inherited_pipe(value@),
{
    let flags = split_text(value, ' ');
    let mut i: usize = flags.len();
    assert(texts(flags@).take(i as int) =~= texts(flags@));
    while i > 0
        invariant
            i <= flags.len(),
            texts(flags@) == crate::text::split(value@, ' '),
            last_auth(texts(flags@)) == last_auth(texts(flags@).take(i as int)),
        decreases i,
    {
        assert(texts(flags@).take(i as int).drop_last() =~= texts(flags@).take(i - 1));
        i = i - 1;
        if let Some(auth) = find_auth(flags[i].as_str()) {
            return read_pipe(auth);
        }
    }
    Ok(None)
}

/// The pipe of the job server that the process inherited, for it to close.
///
/// The arguments are what `CARGO_MAKEFLAGS`, `MAKEFLAGS` and `MFLAGS` are set to.  Only the first
/// of them that is set counts.
pub fn discard_inherited_jobserver(
    cargo_makeflags: Option<&str>,
    makeflags: Option<&str>,
    mflags: Option<&str>,
) -> (pipe: Result<Option<JobserverPipe>, MalformedDescriptor>)
    ensures
        pipe_view(pipe) == (match (cargo_makeflags, makeflags, mflags) {
            (Some(value), _, _) => inherited_pipe(value@),
            (None, Some(value), _) => inherited_pipe(value@),
            (None, None, Some(value)) => inherited_pipe(value@),
            (None, None, None) => Ok(None),
        }),
{
    match (cargo_makeflags, makeflags, mflags) {
        (Some(value), _, _) => find_pipe(value),
        (None, Some(value), _) => find_pipe(value),
        (None, None, Some(value)) => find_pipe(value),
        (None, None, None) => Ok(None),
    }
}

impl JobserverPipe {
    /// Whether the pipe is to be closed, given which of its descriptors are open: descriptors that
    /// were not passed on, or were put to another use since, are left alone.
    pub fn is_to_be_closed(&self, read_open: bool, write_open: bool) -> (yes: bool)
        ensures
            yes == (read_open && write_open),
    {
        read_open && write_open
    }
}

/// Takes the flags that have to do with a job server out of `value`.  The order of the others is
/// reversed.
pub fn strip_jobserver_flags(value: &str) -> (rest: String)
    ensures
        rest@ == stripped(value@),
{
    let flags = split_text(value, ' ');
    let mut kept: Vec<String> = Vec::new();
    let mut i: usize = flags.len();
    let ghost reversed = texts(flags@).reverse();
    let ghost keep = |flag: Seq<char>| is_kept(flag);
    proof {
        reveal(Seq::filter);
        assert(reversed.take(0).filter(keep) =~= seq![]);
        assert(texts(kept@) =~= seq![]);
    }
    while i > 0
        invariant
            i <= flags.len(),
            reversed == texts(flags@).reverse(),
            keep == (|flag: Seq<char>| is_kept(flag)),
            texts(kept@) == reversed.take(flags.len() - i).filter(keep),
        decreases i,
    {
        i = i - 1;
        proof {
            reveal(Seq::filter);
            assert(reversed.take(flags.len() - i).drop_last() =~= reversed.take(
                flags.len() - i - 1,
            ));
            assert(reversed.take(flags.len() - i).last() == flags@[i as int]@);
        }
        if !has_prefix(flags[i].as_str(), "--jobserver") {
            let ghost before = texts(kept@);
            kept.push(flags[i].clone());
            assert(texts(kept@) =~= before.push(flags@[i as int]@));
        }
    }
    proof {
        reveal_strlit(" ");
        assert(reversed.take(reversed.len() as int) =~= reversed);
    }
    join_texts(&kept, " ")
}

proof fn lemma_filter_of_reverse(flags: Seq<Seq<char>>, keep: spec_fn(Seq<char>) -> bool)
    ensures
        flags.reverse().filter(keep) == flags.filter(keep).reverse(),
    decreases flags.len(),
{
    reveal(Seq::filter);
    if flags.len() == 0 {
        assert(flags.reverse() =~= flags);
        assert(flags.filter(keep).reverse() =~= flags);
    } else {
        let init = flags.drop_last();
        let last: Seq<Seq<char>> = seq![flags.last()];
        lemma_filter_of_reverse(init, keep);
        assert(flags.reverse() =~= last + init.reverse());
        lemma_filter_of_concatenation(last, init.reverse(), keep);
        assert(last.drop_last() =~= seq![]);
        assert(last.drop_last().filter(keep) =~= seq![]);
        if keep(flags.last()) {
            assert(last.filter(keep) =~= last);
            assert(init.filter(keep).push(flags.last()).reverse() =~= last + init.filter(
                keep,
            ).reverse());
        } else {
            assert(last.filter(keep) =~= seq![]);
            assert(flags.filter(keep).reverse() =~= last.filter(keep) + init.filter(keep).reverse());
        }
    }
}

proof fn lemma_filter_of_concatenation(
    head: Seq<Seq<char>>,
    tail: Seq<Seq<char>>,
    keep: spec_fn(Seq<char>) -> bool,
)
    ensures
        (head + tail).filter(keep) == head.filter(keep) + tail.filter(keep),
    decreases tail.len(),
{
    reveal(Seq::filter);
    if tail.len() == 0 {
        assert(head + tail =~= head);
        assert(head.filter(keep) + tail.filter(keep) =~= head.filter(keep));
    } else {
        lemma_filter_of_concatenation(head, tail.drop_last(), keep);
        assert((head + tail).drop_last() =~= head + tail.drop_last());
        assert((head + tail).filter(keep) =~= head.filter(keep) + tail.filter(keep));
    }
}

proof fn lemma_filter_keeps_members(flags: Seq<Seq<char>>, keep: spec_fn(Seq<char>) -> bool)
    ensures
        forall|i: int|
            0 <= i < flags.filter(keep).len() ==> keep(#[trigger] flags.filter(keep)[i])
                && flags.contains(flags.filter(keep)[i]),
    decreases flags.len(),
{
    reveal(Seq::filter);
    if flags.len() > 0 {
        let init = flags.drop_last();
        lemma_filter_keeps_members(init, keep);
        assert forall|i: int| 0 <= i < flags.filter(keep).len() implies keep(
            #[trigger] flags.filter(keep)[i],
        ) && flags.contains(flags.filter(keep)[i]) by {
            if i < init.filter(keep).len() {
                assert(flags.filter(keep)[i] == init.filter(keep)[i]);
                let j = choose|j: int| 0 <= j < init.len() && init[j] == init.filter(keep)[i];
                assert(flags[j] == flags.filter(keep)[i]);
            } else {
                assert(flags[flags.len() - 1] == flags.filter(keep)[i]);
            }
        }
    }
}

proof fn lemma_filter_of_kept(flags: Seq<Seq<char>>, keep: spec_fn(Seq<char>) -> bool)
    requires
        forall|i: int| 0 <= i < flags.len() ==> keep(#[trigger] flags[i]),
    ensures
        flags.filter(keep) == flags,
    decreases flags.len(),
{
    reveal(Seq::filter);
    if flags.len() > 0 {
        assert(keep(flags.last()));
        lemma_filter_of_kept(flags.drop_last(), keep);
        assert(flags.drop_last().push(flags.last()) =~= flags);
    } else {
        assert(flags.filter(keep) =~= flags);
    }
}

/// The flags that are left after stripping: the kept ones, the last one first, or a single empty
/// flag where none was kept.
proof fn lemma_flags_of_stripped(value: Seq<char>)
    ensures
        ({
            let keep = |flag: Seq<char>| is_kept(flag);
            let flags = crate::text::split(stripped(value), ' ');
            let kept = crate::text::split(value, ' ').reverse().filter(keep);
            &&& kept.len() > 0 ==> flags == kept
            &&& kept.len() == 0 ==> flags == seq![Seq::<char>::empty()]
            &&& forall|i: int| 0 <= i < flags.len() ==> keep(#[trigger] flags[i])
        }),
{
    let keep = |flag: Seq<char>| is_kept(flag);
    let all = crate::text::split(value, ' ');
    let kept = all.reverse().filter(keep);
    lemma_filter_keeps_members(all.reverse(), keep);
    crate::text::pieces_lack_the_separator(value, ' ');
    assert forall|i: int| 0 <= i < kept.len() implies !(#[trigger] kept[i]).contains(' ') by {
        let j = choose|j: int| 0 <= j < all.reverse().len() && all.reverse()[j] == kept[i];
        assert(all[all.len() - 1 - j] == kept[i]);
    }
    if kept.len() > 0 {
        crate::text::split_inverts_join(kept, ' ');
    } else {
        reveal_strlit("--jobserver");
    }
}

/// No flag that has to do with a job server is left after stripping, so none is found either.
pub proof fn stripped_flags_announce_no_jobserver(value: Seq<char>)
    ensures
        forall|i: int|
            0 <= i < crate::text::split(stripped(value), ' ').len() ==> is_kept(
                #[trigger] crate::text::split(stripped(value), ' ')[i],
            ),
        inherited_pipe(stripped(value)) == Ok::<Option<(int, int)>, MalformedDescriptor>(None),
{
    lemma_flags_of_stripped(value);
    lemma_kept_flags_announce_nothing(crate::text::split(stripped(value), ' '));
}

proof fn lemma_kept_flags_announce_nothing(flags: Seq<Seq<char>>)
    requires
        forall|i: int| 0 <= i < flags.len() ==> is_kept(#[trigger] flags[i]),
    ensures
        last_auth(flags) is None,
    decreases flags.len(),
{
    if flags.len() > 0 {
        let flag = flags.last();
        assert(is_kept(flag));
        reveal_strlit("--jobserver");
        reveal_strlit("--jobserver-auth=");
        reveal_strlit("--jobserver-fds=");
        assert(auth_of(flag) is None) by {
            if "--jobserver-auth="@.is_prefix_of(flag) {
                assert("--jobserver"@ =~= "--jobserver-auth="@.subrange(0, 11));
                assert("--jobserver"@ =~= flag.subrange(0, 11));
            }
            if "--jobserver-fds="@.is_prefix_of(flag) {
                assert("--jobserver"@ =~= "--jobserver-fds="@.subrange(0, 11));
                assert("--jobserver"@ =~= flag.subrange(0, 11));
            }
        }
        lemma_kept_flags_announce_nothing(flags.drop_last());
    }
}

/// Stripping twice gives the flags that have nothing to do with a job server, in the order in
/// which they were.
pub proof fn stripping_twice_restores_the_order(value: Seq<char>)
    ensures
        stripped(stripped(value)) == crate::text::join(
            crate::text::split(value, ' ').filter(|flag: Seq<char>| is_kept(flag)),
            ' ',
        ),
{
    let keep = |flag: Seq<char>| is_kept(flag);
    let all = crate::text::split(value, ' ');
    let once = crate::text::split(stripped(value), ' ');
    lemma_flags_of_stripped(value);
    lemma_filter_of_reverse(all, keep);
    lemma_filter_of_reverse(once, keep);
    lemma_filter_of_kept(once, keep);
    assert(stripped(stripped(value)) == crate::text::join(once.reverse(), ' '));
    if all.filter(keep).len() > 0 {
        assert(once.reverse() =~= all.filter(keep));
    } else {
        assert(once.reverse() =~= once);
    }
}

/// The ten decimal digits.
pub open spec fn digit(d: int) -> char {
    if d == 0 {
        '0'
    } else if d == 1 {
        '1'
    } else if d == 2 {
        '2'
    } else if d == 3 {
        '3'
    } else if d == 4 {
        '4'
    } else if d == 5 {
        '5'
    } else if d == 6 {
        '6'
    } else if d == 7 {
        '7'
    } else if d == 8 {
        '8'
    } else {
        '9'
    }
}

/// The usual decimal text of `n`: the text of a tenth of it, unless that is nothing, and then the
/// digit that remains.
pub open spec fn decimal_text(n: nat) -> Seq<char>
    decreases n,
{
    if n < 10 {
        seq![digit(n as int)]
    } else {
        decimal_text(n / 10).push(digit((n % 10) as int))
    }
}

proof fn lemma_decimal_text(n: nat, zeros: Seq<char>)
    requires
        forall|i: int| 0 <= i < zeros.len() ==> #[trigger] zeros[i] == '0',
    ensures
        is_decimal(zeros + decimal_text(n)),
        decimal(zeros + decimal_text(n)) == n,
    decreases n,
{
    let text = zeros + decimal_text(n);
    if n < 10 {
        assert(text.drop_last() =~= zeros);
        lemma_zeros_are_nothing(zeros);
    } else {
        lemma_decimal_text(n / 10, zeros);
        let init = zeros + decimal_text(n / 10);
        assert(text =~= init.push(digit((n % 10) as int)));
        assert(text.drop_last() =~= init);
        assert(n == 10 * (n / 10) + n % 10);
        assert forall|i: int| 0 <= i < text.len() implies is_digit(#[trigger] text[i]) by {
            if i < init.len() {
                assert(text[i] == init[i]);
            }
        }
    }
}

proof fn lemma_zeros_are_nothing(zeros: Seq<char>)
    requires
        forall|i: int| 0 <= i < zeros.len() ==> #[trigger] zeros[i] == '0',
    ensures
        decimal(zeros) == 0,
    decreases zeros.len(),
{
    if zeros.len() > 0 {
        assert(zeros.last() == '0');
        lemma_zeros_are_nothing(zeros.drop_last());
    }
}

/// A number is read as it is printed, whatever zeros and whichever sign come before it, if it fits
/// into 32 bits, and not at all if it does not.
pub proof fn numbers_are_read_as_printed(n: nat, zeros: Seq<char>)
    requires
        forall|i: int| 0 <= i < zeros.len() ==> #[trigger] zeros[i] == '0',
    ensures
        number(zeros + decimal_text(n)) == (if n <= 2147483647 {
            Some(n as int)
        } else {
            None
        }),
        number(seq!['+'] + (zeros + decimal_text(n))) == (if n <= 2147483647 {
            Some(n as int)
        } else {
            None
        }),
        number(seq!['-'] + (zeros + decimal_text(n))) == (if n <= 2147483648 {
            Some(-(n as int))
        } else {
            None
        }),
{
    let text = zeros + decimal_text(n);
    lemma_decimal_text(n, zeros);
    assert(is_digit(text[0]));
    assert((seq!['+'] + text).skip(1) =~= text);
    assert((seq!['-'] + text).skip(1) =~= text);
}

/// Nothing is read as a number that holds a character other than the ten digits, but for a sign at
/// its beginning, or that holds no digit.
pub proof fn only_digits_are_read(text: Seq<char>, at: int)
    requires
        0 <= at < text.len(),
        forall|d: int| 0 <= d < 10 ==> #[trigger] digit(d) != text[at],
    ensures
        number(Seq::<char>::empty()) is None,
        number(seq!['+']) is None,
        number(seq!['-']) is None,
        at > 0 || (text[at] != '+' && text[at] != '-') ==> number(text) is None,
{
    assert(!is_digit(text[at])) by {
        assert(digit(0) != text[at] && digit(1) != text[at] && digit(2) != text[at] && digit(3)
            != text[at] && digit(4) != text[at]);
        assert(digit(5) != text[at] && digit(6) != text[at] && digit(7) != text[at] && digit(8)
            != text[at] && digit(9) != text[at]);
    }
    if at > 0 || (text[at] != '+' && text[at] != '-') {
        if is_signed(text) {
            assert(unsigned(text)[at - 1] == text[at]);
        } else {
            assert(unsigned(text)[at] == text[at]);
        }
    }
}

proof fn lemma_cut(before: Seq<char>, at: char, after: Seq<char>)
    requires
        !before.contains(at),
    ensures
        cut(before + seq![at] + after, at) == Some((before, after)),
        cut(before, at) is None,
    decreases before.len(),
{
    let text = before + seq![at] + after;
    if before.len() == 0 {
        assert(text.skip(1) =~= after);
        assert(before =~= seq![]);
    } else {
        let rest = before.skip(1);
        assert(before[0] != at) by {
            assert(before.contains(before[0]));
        }
        assert(!rest.contains(at)) by {
            if rest.contains(at) {
                let i = choose|i: int| 0 <= i < rest.len() && rest[i] == at;
                assert(before[i + 1] == at);
            }
        }
        lemma_cut(rest, at, after);
        assert(text.skip(1) =~= rest + seq![at] + after);
        assert(seq![before[0]] + rest =~= before);
    }
}

/// Of what is said of a job server, two numbers with a comma between them announce a pipe, unless
/// one of them is negative.  Two texts that are not both numbers are malformed, whichever of them is
/// not.  What names a fifo, or has no comma, announces no pipe.
pub proof fn what_announces_a_pipe(before: Seq<char>, after: Seq<char>, path: Seq<char>)
    requires
        !before.contains(','),
        !"fifo:"@.is_prefix_of(before + seq![','] + after),
    ensures
        announced_pipe("fifo:"@ + path) == Ok::<Option<(int, int)>, MalformedDescriptor>(None),
        announced_pipe(before) == Ok::<Option<(int, int)>, MalformedDescriptor>(None),
        number(before) is None || number(after) is None ==> announced_pipe(
            before + seq![','] + after,
        ) == Err::<Option<(int, int)>, MalformedDescriptor>(MalformedDescriptor),
        number(before) is Some && number(after) is Some ==> announced_pipe(
            before + seq![','] + after,
        ) == Ok::<Option<(int, int)>, MalformedDescriptor>(
            if number(before)->0 >= 0 && number(after)->0 >= 0 {
                Some((number(before)->0, number(after)->0))
            } else {
                None
            },
        ),
{
    lemma_cut(before, ',', after);
    let fifo = "fifo:"@ + path;
    assert(fifo.subrange(0, "fifo:"@.len() as int) =~= "fifo:"@);
}

/// `flag` announces no job server.
pub open spec fn announces_nothing(flag: Seq<char>) -> bool {
    !"--jobserver-auth="@.is_prefix_of(flag) && !"--jobserver-fds="@.is_prefix_of(flag)
}

proof fn lemma_last_auth(flags: Seq<Seq<char>>, k: int)
    requires
        0 <= k <= flags.len(),
        forall|j: int| k <= j < flags.len() ==> announces_nothing(#[trigger] flags[j]),
    ensures
        last_auth(flags) == last_auth(flags.take(k)),
    decreases flags.len() - k,
{
    if k == flags.len() {
        assert(flags.take(k) =~= flags);
    } else {
        lemma_last_auth(flags, k + 1);
        assert(announces_nothing(flags[k]));
        assert(flags.take(k + 1).drop_last() =~= flags.take(k));
    }
}

/// The last flag that announces a job server counts, in either of the two ways to announce one, and
/// what comes after its announcement is what it says.  Where there is no such flag, there is no pipe.
pub proof fn the_last_announcement_counts(
    flags: Seq<Seq<char>>,
    k: int,
    announcement: Seq<char>,
    auth: Seq<char>,
)
    requires
        flags.len() > 0,
        forall|j: int| 0 <= j < flags.len() ==> !(#[trigger] flags[j]).contains(' '),
        -1 <= k < flags.len(),
        forall|j: int| k < j < flags.len() ==> announces_nothing(#[trigger] flags[j]),
        announcement == "--jobserver-auth="@ || announcement == "--jobserver-fds="@,
        k >= 0 ==> flags[k] == announcement + auth,
    ensures
        k >= 0 ==> inherited_pipe(crate::text::join(flags, ' ')) == announced_pipe(auth),
        k < 0 ==> inherited_pipe(crate::text::join(flags, ' ')) == Ok::<
            Option<(int, int)>,
            MalformedDescriptor,
        >(None),
{
    crate::text::split_inverts_join(flags, ' ');
    assert forall|j: int| k + 1 <= j < flags.len() implies announces_nothing(
        #[trigger] flags[j],
    ) by {}
    lemma_last_auth(flags, k + 1);
    if k >= 0 {
        let flag = flags[k];
        assert(flags.take(k + 1).last() == flag);
        assert(flag.subrange(0, announcement.len() as int) =~= announcement);
        assert(flag.skip(announcement.len() as int) =~= auth);
        reveal_strlit("--jobserver-auth=");
        reveal_strlit("--jobserver-fds=");
        if announcement == "--jobserver-fds="@ {
            assert("--jobserver-auth="@[12] == 'a');
            assert(flag[12] == 'f');
            if "--jobserver-auth="@.is_prefix_of(flag) {
                assert(flag.subrange(0, "--jobserver-auth="@.len() as int)[12] == flag[12]);
            }
        }
        assert(auth_of(flag) == Some(auth));
    }
}

/// A pipe that is announced is found: where the last flag that announces a job server gives two
/// numbers that fit into 32 bits, as they are usually printed, with a comma between them, the pipe is
/// made of just these two.
pub proof fn announced_pipes_are_found(
    flags: Seq<Seq<char>>,
    k: int,
    announcement: Seq<char>,
    read: nat,
    write: nat,
)
    requires
        forall|j: int| 0 <= j < flags.len() ==> !(#[trigger] flags[j]).contains(' '),
        0 <= k < flags.len(),
        forall|j: int| k < j < flags.len() ==> announces_nothing(#[trigger] flags[j]),
        announcement == "--jobserver-auth="@ || announcement == "--jobserver-fds="@,
        flags[k] == announcement + (decimal_text(read) + seq![','] + decimal_text(write)),
        read <= 2147483647,
        write <= 2147483647,
    ensures
        inherited_pipe(crate::text::join(flags, ' ')) == Ok::<
            Option<(int, int)>,
            MalformedDescriptor,
        >(Some((read as int, write as int))),
{
    let auth = decimal_text(read) + seq![','] + decimal_text(write);
    the_last_announcement_counts(flags, k, announcement, auth);
    let none: Seq<char> = seq![];
    numbers_are_read_as_printed(read, none);
    numbers_are_read_as_printed(write, none);
    lemma_decimal_text(read, none);
    assert(none + decimal_text(read) =~= decimal_text(read));
    assert(none + decimal_text(write) =~= decimal_text(write));
    let text = decimal_text(read);
    assert(is_digit(text[0]));
    assert(!text.contains(',')) by {
        if text.contains(',') {
            let i = choose|i: int| 0 <= i < text.len() && text[i] == ',';
            assert(is_digit(text[i]));
        }
    }
    reveal_strlit("fifo:");
    assert(!"fifo:"@.is_prefix_of(auth)) by {
        if "fifo:"@.is_prefix_of(auth) {
            assert(auth.subrange(0, "fifo:"@.len() as int)[0] == auth[0]);
        }
    }
    what_announces_a_pipe(text, decimal_text(write), none);
}

/// A pipe is seen as its two descriptors, in their order.
pub proof fn pipes_are_seen_as_their_descriptors(pipe: JobserverPipe)
    ensures
        pipe_view(Ok(Some(pipe))) == Ok::<Option<(int, int)>, MalformedDescriptor>(
            Some((pipe.read as int, pipe.write as int)),
        ),
        pipe_view(Ok(None)) == Ok::<Option<(int, int)>, MalformedDescriptor>(None),
        pipe_view(Err(MalformedDescriptor)) == Err::<Option<(int, int)>, MalformedDescriptor>(
            MalformedDescriptor,
        ),
{
}

/// Where no flag has to do with a job server, stripping only reverses the order of the flags.
pub proof fn other_flags_are_kept(flags: Seq<Seq<char>>)
    requires
        flags.len() > 0,
        forall|j: int| 0 <= j < flags.len() ==> !(#[trigger] flags[j]).contains(' '),
        forall|j: int|
            0 <= j < flags.len() ==> !"--jobserver"@.is_prefix_of(#[trigger] flags[j]),
    ensures
        stripped(crate::text::join(flags, ' ')) == crate::text::join(flags.reverse(), ' '),
{
    let keep = |flag: Seq<char>| is_kept(flag);
    crate::text::split_inverts_join(flags, ' ');
    assert forall|i: int| 0 <= i < flags.reverse().len() implies keep(
        #[trigger] flags.reverse()[i],
    ) by {
        assert(flags.reverse()[i] == flags[flags.len() - 1 - i]);
    }
    lemma_filter_of_kept(flags.reverse(), keep);
}

/// A flag that has to do with a job server makes no difference to what is left after stripping,
/// wherever among the others it is.
pub proof fn jobserver_flags_are_stripped(
    head: Seq<Seq<char>>,
    flag: Seq<char>,
    tail: Seq<Seq<char>>,
)
    requires
        forall|j: int| 0 <= j < head.len() ==> !(#[trigger] head[j]).contains(' '),
        forall|j: int| 0 <= j < tail.len() ==> !(#[trigger] tail[j]).contains(' '),
        !flag.contains(' '),
        "--jobserver"@.is_prefix_of(flag),
    ensures
        stripped(crate::text::join(head + seq![flag] + tail, ' ')) == stripped(
            crate::text::join(head + tail, ' '),
        ),
{
    let keep = |flag: Seq<char>| is_kept(flag);
    let one: Seq<Seq<char>> = seq![flag];
    let with = head + one + tail;
    let without = head + tail;
    assert forall|j: int| 0 <= j < with.len() implies !(#[trigger] with[j]).contains(' ') by {
        if j < head.len() {
            assert(with[j] == head[j]);
        } else if j > head.len() {
            assert(with[j] == tail[j - head.len() - 1]);
        }
    }
    assert forall|j: int| 0 <= j < without.len() implies !(#[trigger] without[j]).contains(' ') by {
        if j < head.len() {
            assert(without[j] == head[j]);
        } else {
            assert(without[j] == tail[j - head.len()]);
        }
    }
    crate::text::split_inverts_join(with, ' ');
    lemma_filter_of_reverse(with, keep);
    lemma_filter_of_concatenation(head + one, tail, keep);
    lemma_filter_of_concatenation(head, one, keep);
    lemma_filter_of_concatenation(head, tail, keep);
    assert(one.filter(keep) =~= seq![]) by {
        reveal(Seq::filter);
        assert(!keep(one.last()));
        assert(one.drop_last() =~= seq![]);
        assert(one.drop_last().filter(keep) =~= seq![]);
    }
    assert(head.filter(keep) + one.filter(keep) =~= head.filter(keep));
    assert(with.filter(keep) =~= without.filter(keep));
    if without.len() > 0 {
        crate::text::split_inverts_join(without, ' ');
        lemma_filter_of_reverse(without, keep);
    } else {
        assert(without =~= seq![]);
        assert(without.filter(keep) =~= seq![]) by {
            reveal(Seq::filter);
        }
        assert(with.filter(keep).reverse() =~= seq![]);
        let blank: Seq<Seq<char>> = seq![seq![]];
        assert(crate::text::split(seq![], ' ') =~= blank);
        assert(blank.reverse() =~= blank);
        reveal_strlit("--jobserver");
        lemma_filter_of_kept(blank, keep);
    }
}

} // verus!
