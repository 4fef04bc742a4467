use vstd::prelude::*;
use crate::text::{chars_of, find_at, lemma_find_at_bounds, lower_seq, lower_vec, vec_find_at};

verus! {

/// The opening label tag, after ASCII lower-casing.
pub open spec fn label_open() -> Seq<char> {
    seq!['<', 'l', '>']
}

/// The closing label tag, after ASCII lower-casing.
pub open spec fn label_close() -> Seq<char> {
    seq!['<', '/', 'l', '>']
}

/// Number of non-empty `<l>...</l>` labels in `s` from index `pos` on: each
/// search takes the first `<l>`, then the first `</l>` after it, and
/// continues behind that `</l>`; an unclosed `<l>` ends the count.
pub open spec fn label_count_from(s: Seq<char>, pos: int) -> nat
    decreases s.len() + 1 - pos,
{
    if pos < 0 || pos > s.len() {
        0
    } else {
        match find_at(s, label_open(), pos) {
            None => 0,
            Some(start) => {
                proof {
                    lemma_find_at_bounds(s, label_open(), pos);
                    lemma_find_at_bounds(s, label_close(), start + 3);
                }
                match find_at(s, label_close(), start + 3) {
                    None => 0,
                    Some(end) => (if end != start + 3 { 1nat } else { 0nat }) + label_count_from(
                        s,
                        end + 4,
                    ),
                }
            },
        }
    }
}

/// Number of non-empty labels in `source`, tags matched case-insensitively.
pub open spec fn native_label_count(source: Seq<char>) -> nat {
    label_count_from(lower_seq(source), 0)
}

/// Counts the non-empty `<l>...</l>` labels of `source`, ASCII
/// case-insensitively, saturating at `i32::MAX`.
pub fn count_native_labels(source: &str) -> (count: i32)
    ensures
        count as int == if native_label_count(source@) > i32::MAX as nat {
            i32::MAX as int
        } else {
            native_label_count(source@) as int
        },
{
    let lower = lower_vec(&chars_of(source));
    let open: Vec<char> = vec!['<', 'l', '>'];
    let close: Vec<char> = vec!['<', '/', 'l', '>'];
    assert(open@ == label_open());
    assert(close@ == label_close());
    let ghost s = lower@;
    let ghost mut acc: nat = 0;
    let mut pos: usize = 0;
    let mut count: i32 = 0;
    assert(native_label_count(source@) == label_count_from(s, 0));
    loop
        invariant
            s == lower@,
            s.len() == lower.len(),
            open@ == label_open(),
            close@ == label_close(),
            pos <= s.len(),
            acc + label_count_from(s, pos as int) == native_label_count(source@),
            count as int == if acc > i32::MAX as nat { i32::MAX as int } else { acc as int },
        ensures
            acc == native_label_count(source@),
            count as int == if acc > i32::MAX as nat { i32::MAX as int } else { acc as int },
        decreases s.len() + 1 - pos,
    {
        proof {
            lemma_find_at_bounds(s, label_open(), pos as int);
        }
        let start = match vec_find_at(&lower, &open, pos) {
            Some(start) => start,
            None => break,
        };
        assert(start + 3 <= s.len());
        proof {
            lemma_find_at_bounds(s, label_close(), start as int + 3);
        }
        let end = match vec_find_at(&lower, &close, start + 3) {
            Some(end) => end,
            None => break,
        };
        assert(end + 4 <= s.len());
        if end != start + 3 {
            proof {
                acc = acc + 1;
            }
            if count < i32::MAX {
                count = count + 1;
            }
        }
        pos = end + 4;
    }
    count
}

} // verus!
