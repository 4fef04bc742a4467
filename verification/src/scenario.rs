use vstd::prelude::*;
use crate::text::{one_char, chars_of, ends_with, starts_with, vec_ends_with, vec_eq, vec_starts_with};

verus! {

/// The last two values, in order, when there are at least two.
pub fn last_two(values: &[i32]) -> (out: Option<(i32, i32)>)
    ensures
        values@.len() >= 2 ==> out == Some(
            (values@[values@.len() - 2], values@[values@.len() - 1]),
        ),
        values@.len() < 2 ==> out is None,
{
    if values.len() < 2 {
        return None;
    }
    Some((values[values.len() - 2], values[values.len() - 1]))
}

/// The character short name that a speaker slot stands for.
pub open spec fn character_name_spec(slot: i32) -> Option<Seq<char>> {
    if slot == 1 {
        Some(seq!['k', 'o', 'h'])
    } else if slot == 3 {
        Some(seq!['h', 'i', 'h'])
    } else if slot == 15 {
        Some(seq!['t', 'a', 'y'])
    } else {
        None
    }
}

/// The character short name that a speaker slot stands for.
pub fn character_name(slot: i32) -> (out: Option<String>)
    ensures
        match (out, character_name_spec(slot)) {
            (Some(s), Some(t)) => s@ == t,
            (None, None) => true,
            _ => false,
        },
{
    let name: Vec<char> = match slot {
        1 => vec!['k', 'o', 'h'],
        3 => vec!['h', 'i', 'h'],
        15 => vec!['t', 'a', 'y'],
        _ => return None,
    };
    Some(crate::text::string_of(&name))
}

/// Sprite size prefix for a size code.
pub open spec fn size_prefix_spec(size: i32) -> Seq<char> {
    if size == 0 || size == 1 {
        seq!['L']
    } else if size == 3 {
        seq!['M']
    } else if size == 4 {
        seq!['S']
    } else {
        seq!['L', 'L']
    }
}

/// Sprite size prefix for a size code.
pub fn size_prefix(size: i32) -> (out: String)
    ensures
        out@ == size_prefix_spec(size),
{
    let prefix: Vec<char> = match size {
        0 | 1 => one_char('L'),
        3 => one_char('M'),
        4 => one_char('S'),
        _ => vec!['L', 'L'],
    };
    crate::text::string_of(&prefix)
}

/// The body layer a pose letter selects.
pub open spec fn body_layer_spec(pose: Seq<char>) -> Option<Seq<char>> {
    if pose == seq!['a'] {
        Some(seq!['a', 'x', '1', '1'])
    } else if pose == seq!['d'] {
        Some(seq!['a', 'x', '1', '2'])
    } else if pose == seq!['c'] {
        Some(seq!['a', 'x', '1', '4'])
    } else {
        None
    }
}

/// The body layer a pose letter selects.
pub fn character_body_layer_for_pose(pose: &str) -> (out: Option<String>)
    ensures
        match (out, body_layer_spec(pose@)) {
            (Some(s), Some(t)) => s@ == t,
            (None, None) => true,
            _ => false,
        },
{
    let p = chars_of(pose);
    let layer: Vec<char> = if vec_eq(&p, &one_char('a')) {
        vec!['a', 'x', '1', '1']
    } else if vec_eq(&p, &one_char('d')) {
        vec!['a', 'x', '1', '2']
    } else if vec_eq(&p, &one_char('c')) {
        vec!['a', 'x', '1', '4']
    } else {
        return None;
    };
    Some(crate::text::string_of(&layer))
}

pub open spec fn is_ascii_alnum_or_underscore(c: char) -> bool {
    ('0' <= c && c <= '9') || ('a' <= c && c <= 'z') || ('A' <= c && c <= 'Z') || c == '_'
}

/// Every character is an ASCII letter, digit or underscore.
pub open spec fn all_word_chars(s: Seq<char>) -> bool {
    forall|i: int| 0 <= i < s.len() ==> is_ascii_alnum_or_underscore(#[trigger] s[i])
}

pub open spec fn txt_suffix() -> Seq<char> {
    seq!['.', 't', 'x', 't']
}

/// A resource name: non-empty, no `.txt` suffix, no leading `_`, only word characters.
pub open spec fn resource_name_spec(text: Seq<char>) -> bool {
    text.len() > 0 && !ends_with(text, txt_suffix()) && !starts_with(text, seq!['_'])
        && all_word_chars(text)
}

/// A script name: `_GM`, `_00`, or anything that looks like a resource name.
pub open spec fn script_name_spec(text: Seq<char>) -> bool {
    text == seq!['_', 'G', 'M'] || text == seq!['_', '0', '0'] || resource_name_spec(text)
}

fn is_word_char(c: char) -> (out: bool)
    ensures
        out == is_ascii_alnum_or_underscore(c),
{
    ('0' <= c && c <= '9') || ('a' <= c && c <= 'z') || ('A' <= c && c <= 'Z') || c == '_'
}

fn all_word(v: &Vec<char>) -> (out: bool)
    ensures
        out == all_word_chars(v@),
{
    let mut i: usize = 0;
    while i < v.len()
        invariant
            i <= v.len(),
            forall|j: int| 0 <= j < i ==> is_ascii_alnum_or_underscore(#[trigger] v@[j]),
        decreases v.len() - i,
    {
        if !is_word_char(v[i]) {
            return false;
        }
        i += 1;
    }
    true
}

fn resource_name_chars(v: &Vec<char>) -> (out: bool)
    ensures
        out == resource_name_spec(v@),
{
    v.len() > 0 && !vec_ends_with(v, &vec!['.', 't', 'x', 't']) && !vec_starts_with(v, &one_char('_'))
        && all_word(v)
}

/// Whether `text` looks like a resource name.
pub fn looks_like_resource_name(text: &str) -> (out: bool)
    ensures
        out == resource_name_spec(text@),
{
    resource_name_chars(&chars_of(text))
}

/// Whether `text` looks like a script name.
pub fn looks_like_script_name(text: &str) -> (out: bool)
    ensures
        out == script_name_spec(text@),
{
    let v = chars_of(text);
    vec_eq(&v, &vec!['_', 'G', 'M']) || vec_eq(&v, &vec!['_', '0', '0']) || resource_name_chars(&v)
}

/// Message text: non-empty, no leading `_`, no `.txt` or `se_` marker, and not a plain word.
pub open spec fn message_text_spec(text: Seq<char>) -> bool {
    text.len() > 0 && !starts_with(text, seq!['_']) && !ends_with(text, txt_suffix())
        && !starts_with(text, seq!['s', 'e', '_']) && !all_word_chars(text)
}

/// Whether `text` is displayed message text.
pub fn is_message_text(text: &str) -> (out: bool)
    ensures
        out == message_text_spec(text@),
{
    let v = chars_of(text);
    v.len() > 0 && !vec_starts_with(&v, &one_char('_')) && !vec_ends_with(&v, &vec!['.', 't', 'x', 't'])
        && !vec_starts_with(&v, &vec!['s', 'e', '_']) && !all_word(&v)
}

/// The empty-message marker `空`.
pub open spec fn message_marker_spec(text: Seq<char>) -> bool {
    text == seq!['\u{7a7a}']
}

/// Whether `text` is the empty-message marker.
pub fn is_message_marker(text: &str) -> (out: bool)
    ensures
        out == message_marker_spec(text@),
{
    vec_eq(&chars_of(text), &one_char('\u{7a7a}'))
}

/// Punctuation that never occurs in a speaker label.
pub open spec fn is_sentence_punctuation(c: char) -> bool {
    c == '\u{300c}' || c == '\u{300d}' || c == '\u{300e}' || c == '\u{300f}' || c == '\u{ff08}'
        || c == '\u{ff09}' || c == '\u{3002}' || c == '\u{3001}' || c == '\u{ff0c}' || c
        == '\u{ff0e}' || c == '\u{ff01}' || c == '\u{ff1f}' || c == '!' || c == '?' || c
        == '\u{2026}' || c == '\u{30fc}'
}

/// A speaker label: at most twelve characters, no line break, no sentence punctuation.
pub open spec fn speaker_label_spec(text: Seq<char>) -> bool {
    text.len() <= 12 && forall|i: int|
        0 <= i < text.len() ==> #[trigger] text[i] != '\n' && !is_sentence_punctuation(text[i])
}

fn sentence_punctuation(c: char) -> (out: bool)
    ensures
        out == is_sentence_punctuation(c),
{
    c == '\u{300c}' || c == '\u{300d}' || c == '\u{300e}' || c == '\u{300f}' || c == '\u{ff08}'
        || c == '\u{ff09}' || c == '\u{3002}' || c == '\u{3001}' || c == '\u{ff0c}' || c
        == '\u{ff0e}' || c == '\u{ff01}' || c == '\u{ff1f}' || c == '!' || c == '?' || c
        == '\u{2026}' || c == '\u{30fc}'
}

/// Whether `text` reads as a speaker label rather than a line of dialogue.
pub fn is_speaker_label(text: &str) -> (out: bool)
    ensures
        out == speaker_label_spec(text@),
{
    let v = chars_of(text);
    if v.len() > 12 {
        return false;
    }
    let mut i: usize = 0;
    while i < v.len()
        invariant
            i <= v.len(),
            v@ == text@,
            forall|j: int|
                0 <= j < i ==> #[trigger] v@[j] != '\n' && !is_sentence_punctuation(v@[j]),
        decreases v.len() - i,
    {
        if v[i] == '\n' || sentence_punctuation(v[i]) {
            return false;
        }
        i += 1;
    }
    true
}

/// Whether playback pauses for input after showing `text`.
pub fn should_wait_after_message(text: &str) -> (out: bool)
    ensures
        out == (!message_marker_spec(text@) && !speaker_label_spec(text@)),
{
    !is_message_marker(text) && !is_speaker_label(text)
}

} // verus!
