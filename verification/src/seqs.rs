use vstd::prelude::*;

verus! {

/// Index of the first element of `s` equal to `x`, or -1.
pub open spec fn first_index<T>(s: Seq<T>, x: T) -> int
    decreases s.len(),
{
    if s.len() == 0 {
        -1
    } else {
        let prev = first_index(s.drop_last(), x);
        if prev >= 0 {
            prev
        } else if s.last() == x {
            s.len() - 1
        } else {
            -1
        }
    }
}

pub proof fn lemma_first_index<T>(s: Seq<T>, x: T)
    ensures
        -1 <= first_index(s, x) < s.len(),
        first_index(s, x) >= 0 ==> s[first_index(s, x)] == x,
        first_index(s, x) >= 0 ==> forall|j: int| 0 <= j < first_index(s, x) ==> s[j] != x,
        first_index(s, x) == -1 ==> forall|j: int| 0 <= j < s.len() ==> s[j] != x,
        first_index(s, x) == -1 <==> !s.contains(x),
    decreases s.len(),
{
    if s.len() > 0 {
        lemma_first_index(s.drop_last(), x);
        assert forall|j: int| 0 <= j < s.len() - 1 implies s.drop_last()[j] == s[j] by {}
    }
    if first_index(s, x) == -1 {
        assert forall|j: int| 0 <= j < s.len() implies s[j] != x by {}
    } else {
        assert(s.contains(x) || !s.contains(x));
    }
}

/// In a sequence without repeats, an element's first index is its only index.
pub proof fn lemma_first_index_unique<T>(s: Seq<T>, i: int)
    requires
        0 <= i < s.len(),
        forall|a: int, b: int| 0 <= a < b < s.len() ==> s[a] != s[b],
    ensures
        first_index(s, s[i]) == i,
{
    lemma_first_index(s, s[i]);
    let k = first_index(s, s[i]);
    if k != i {
        if k < i {
            assert(s[k] != s[i]);
        }
    }
}

/// Whether a sequence has no repeated element.
pub open spec fn distinct<T>(s: Seq<T>) -> bool {
    forall|a: int, b: int| 0 <= a < b < s.len() ==> s[a] != s[b]
}

/// Position of `x` in the vector, when present.
pub fn find_i32(v: &Vec<i32>, x: i32) -> (out: Option<usize>)
    ensures
        out is None <==> first_index(v@, x) == -1,
        out matches Some(i) ==> i as int == first_index(v@, x),
{
    proof {
        lemma_first_index(v@, x);
    }
    let mut i: usize = 0;
    while i < v.len()
        invariant
            i <= v.len(),
            forall|j: int| 0 <= j < i ==> v@[j] != x,
        decreases v.len() - i,
    {
        if v[i] == x {
            proof {
                lemma_first_index(v@, x);
            }
            return Some(i);
        }
        i += 1;
    }
    None
}

} // verus!
