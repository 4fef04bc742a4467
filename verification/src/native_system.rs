use vstd::prelude::*;
use crate::text::{chars_of, char_is_whitespace, is_ws, string_of};
use crate::resource_lookup::strings_view;

verus! {

/// `n` copies of `c`.
pub open spec fn repeat_char(c: char, n: nat) -> Seq<char> {
    Seq::new(n, |i: int| c)
}

/// Scanner state while splitting a command line.
pub struct SplitState {
    pub args: Seq<Seq<char>>,
    pub current: Seq<char>,
    pub quoted: bool,
    pub backslashes: nat,
}

/// The scanner state after the first `n` characters: backslashes are counted
/// until a non-backslash; before `"` every pair becomes one backslash and an
/// odd one escapes the quote, otherwise the quote toggles quoting; unquoted
/// whitespace ends a non-empty argument; any other character is kept.
pub open spec fn split_state(s: Seq<char>, n: int) -> SplitState
    decreases n,
{
    if n <= 0 {
        SplitState { args: Seq::empty(), current: Seq::empty(), quoted: false, backslashes: 0 }
    } else {
        let st = split_state(s, n - 1);
        let ch = s[n - 1];
        if ch == '\\' {
            SplitState { backslashes: st.backslashes + 1, ..st }
        } else if ch == '"' {
            let current = st.current + repeat_char('\\', st.backslashes / 2);
            if st.backslashes % 2 == 0 {
                SplitState { current, quoted: !st.quoted, backslashes: 0, ..st }
            } else {
                SplitState { current: current.push('"'), backslashes: 0, ..st }
            }
        } else if is_ws(ch) && !st.quoted {
            let current = st.current + repeat_char('\\', st.backslashes);
            if current.len() > 0 {
                SplitState { args: st.args.push(current), current: Seq::empty(), backslashes: 0, ..st }
            } else {
                SplitState { current, backslashes: 0, ..st }
            }
        } else {
            SplitState {
                current: (st.current + repeat_char('\\', st.backslashes)).push(ch),
                backslashes: 0,
                ..st
            }
        }
    }
}

/// Arguments of a command line, split with the Windows quoting rules.
pub open spec fn command_line_args(s: Seq<char>) -> Seq<Seq<char>> {
    let st = split_state(s, s.len() as int);
    let last = st.current + repeat_char('\\', st.backslashes);
    if last.len() > 0 {
        st.args.push(last)
    } else {
        st.args
    }
}

fn push_backslashes(v: &mut Vec<char>, n: usize)
    ensures
        final(v)@ == old(v)@ + repeat_char('\\', n as nat),
{
    let mut i: usize = 0;
    while i < n
        invariant
            i <= n,
            v@ == old(v)@ + repeat_char('\\', i as nat),
        decreases n - i,
    {
        v.push('\\');
        assert(repeat_char('\\', (i + 1) as nat) =~= repeat_char('\\', i as nat).push('\\'));
        i += 1;
    }
}

/// Splits a command line into arguments with the Windows quoting rules.
pub fn split_native_command_line(command_line: &str) -> (args: Vec<String>)
    ensures
        strings_view(args@) == command_line_args(command_line@),
{
    let s = chars_of(command_line);
    let mut args: Vec<String> = Vec::new();
    let mut current: Vec<char> = Vec::new();
    let mut quoted = false;
    let mut backslashes: usize = 0;
    let mut i: usize = 0;
    while i < s.len()
        invariant
            i <= s.len(),
            s@ == command_line@,
            backslashes <= i,
            ({
                let st = split_state(s@, i as int);
                &&& strings_view(args@) == st.args
                &&& current@ == st.current
                &&& quoted == st.quoted
                &&& backslashes == st.backslashes
            }),
        decreases s.len() - i,
    {
        let ch = s[i];
        if ch == '\\' {
            backslashes += 1;
        } else if ch == '"' {
            push_backslashes(&mut current, backslashes / 2);
            if backslashes % 2 == 0 {
                quoted = !quoted;
            } else {
                current.push('"');
            }
            backslashes = 0;
        } else if char_is_whitespace(ch) && !quoted {
            push_backslashes(&mut current, backslashes);
            backslashes = 0;
            if current.len() > 0 {
                let ghost before = args@;
                let finished = string_of(&current);
                args.push(finished);
                assert(strings_view(args@) =~= strings_view(before).push(finished@));
                current = Vec::new();
            }
        } else {
            push_backslashes(&mut current, backslashes);
            backslashes = 0;
            current.push(ch);
        }
        i += 1;
    }
    push_backslashes(&mut current, backslashes);
    if current.len() > 0 {
        let ghost before = args@;
        let finished = string_of(&current);
        args.push(finished);
        assert(strings_view(args@) =~= strings_view(before).push(finished@));
    }
    args
}

/// A command line without quotes or whitespace is one argument, kept
/// character for character: backslashes that no quote follows are copied
/// as they are. An empty line has no arguments.
pub proof fn law_plain_command_line_is_one_argument(s: Seq<char>)
    requires
        forall|i: int| 0 <= i < s.len() ==> s[i] != '"' && !is_ws(#[trigger] s[i]),
    ensures
        command_line_args(s) == (if s.len() > 0 {
            seq![s]
        } else {
            Seq::<Seq<char>>::empty()
        }),
{
    lemma_plain_segment_state(s, 0, s.len() as int);
    assert(s.subrange(0, s.len() as int) =~= s);
    if s.len() > 0 {
        assert(Seq::<Seq<char>>::empty().push(s) =~= seq![s]);
    }
}

proof fn lemma_plain_segment_state(s: Seq<char>, a: int, n: int)
    requires
        0 <= a <= n <= s.len(),
        split_state(s, a).current == Seq::<char>::empty(),
        split_state(s, a).backslashes == 0,
        !split_state(s, a).quoted,
        forall|i: int| a <= i < n ==> s[i] != '"' && !is_ws(#[trigger] s[i]),
    ensures
        split_state(s, n).args == split_state(s, a).args,
        !split_state(s, n).quoted,
        split_state(s, n).current + repeat_char('\\', split_state(s, n).backslashes) == s.subrange(a, n),
    decreases n,
{
    if n == a {
        assert(repeat_char('\\', 0) =~= Seq::<char>::empty());
        assert(s.subrange(a, a) =~= Seq::<char>::empty());
    } else {
        lemma_plain_segment_state(s, a, n - 1);
        let st = split_state(s, n - 1);
        assert(s.subrange(a, n) =~= s.subrange(a, n - 1).push(s[n - 1]));
        if s[n - 1] == '\\' {
            assert(repeat_char('\\', st.backslashes + 1) =~= repeat_char('\\', st.backslashes).push('\\'));
            assert(st.current + repeat_char('\\', st.backslashes + 1) =~= (st.current + repeat_char(
                '\\',
                st.backslashes,
            )).push('\\'));
        } else {
            assert(repeat_char('\\', 0) =~= Seq::<char>::empty());
            let c = (st.current + repeat_char('\\', st.backslashes)).push(s[n - 1]);
            assert(c + repeat_char('\\', 0) =~= c);
        }
    }
}

/// Two quote-free words separated by a space are two arguments, each kept
/// character for character, backslashes included.
pub proof fn law_space_separates_plain_words(w1: Seq<char>, w2: Seq<char>)
    requires
        w1.len() > 0,
        w2.len() > 0,
        forall|i: int| 0 <= i < w1.len() ==> w1[i] != '"' && !is_ws(#[trigger] w1[i]),
        forall|i: int| 0 <= i < w2.len() ==> w2[i] != '"' && !is_ws(#[trigger] w2[i]),
    ensures
        command_line_args(w1 + seq![' '] + w2) == seq![w1, w2],
{
    let s = w1 + seq![' '] + w2;
    let n1 = w1.len() as int;
    assert(repeat_char('\\', 0) =~= Seq::<char>::empty());
    assert forall|i: int| 0 <= i < n1 implies s[i] != '"' && !is_ws(#[trigger] s[i]) by {
        assert(s[i] == w1[i]);
    }
    lemma_plain_segment_state(s, 0, n1);
    assert(s.subrange(0, n1) =~= w1);
    assert(s[n1] == ' ');
    assert(is_ws(' '));
    let st1 = split_state(s, n1 + 1);
    assert(st1.args =~= seq![w1]);
    assert forall|i: int| n1 + 1 <= i < s.len() implies s[i] != '"' && !is_ws(#[trigger] s[i]) by {
        assert(s[i] == w2[i - n1 - 1]);
    }
    lemma_plain_segment_state(s, n1 + 1, s.len() as int);
    assert(s.subrange(n1 + 1, s.len() as int) =~= w2);
    assert(seq![w1].push(w2) =~= seq![w1, w2]);
}

} // verus!
