use vstd::prelude::*;
use crate::text::{
    is_ws, lemma_trim_bounds, lemma_trim_end_bounds, lower_char, skip_ws_from, trim_end_from,
    chars_of, find_at, join_seq, lemma_find_at_bounds, lemma_split_nonempty, lower_seq,
    lower_vec, one_char, split_seq, starts_with, string_of, trim_seq, vec_eq, vec_find_at,
    vec_join, vec_skip, vec_split, vec_starts_with, vec_take, vec_trim,
};

verus! {

/// Backslashes turned into forward slashes.
pub open spec fn slashes_seq(s: Seq<char>) -> Seq<char> {
    s.map_values(|c: char| if c == '\\' { '/' } else { c })
}

/// The non-empty pieces, each trimmed, in order.
pub open spec fn trimmed_nonempty(parts: Seq<Seq<char>>) -> Seq<Seq<char>>
    decreases parts.len(),
{
    if parts.len() == 0 {
        Seq::empty()
    } else {
        let prev = trimmed_nonempty(parts.drop_last());
        if parts.last().len() > 0 {
            prev.push(trim_seq(parts.last()))
        } else {
            prev
        }
    }
}

/// A platform key in canonical form: trimmed, `\` read as `/`, empty
/// components dropped, each component trimmed, joined by `/`, ASCII lower-cased.
pub open spec fn normalized_key(key: Seq<char>) -> Seq<char> {
    lower_seq(
        join_seq(trimmed_nonempty(split_seq(slashes_seq(trim_seq(key)), '/')), seq!['/']),
    )
}

fn replace_backslashes(s: &Vec<char>) -> (out: Vec<char>)
    ensures
        out@ == slashes_seq(s@),
{
    let mut out: Vec<char> = Vec::new();
    let mut i: usize = 0;
    while i < s.len()
        invariant
            i <= s.len(),
            out@ == slashes_seq(s@.take(i as int)),
        decreases s.len() - i,
    {
        out.push(if s[i] == '\\' { '/' } else { s[i] });
        assert(slashes_seq(s@.take(i as int + 1)) =~= slashes_seq(s@.take(i as int)).push(
            if s@[i as int] == '\\' { '/' } else { s@[i as int] },
        ));
        i += 1;
    }
    assert(s@.take(s.len() as int) == s@);
    out
}

fn keep_trimmed_nonempty(parts: &Vec<Vec<char>>) -> (out: Vec<Vec<char>>)
    ensures
        out@.map_values(|v: Vec<char>| v@) == trimmed_nonempty(
            parts@.map_values(|v: Vec<char>| v@),
        ),
{
    let ghost views = parts@.map_values(|v: Vec<char>| v@);
    let mut out: Vec<Vec<char>> = Vec::new();
    let mut i: usize = 0;
    while i < parts.len()
        invariant
            i <= parts.len(),
            views == parts@.map_values(|v: Vec<char>| v@),
            out@.map_values(|v: Vec<char>| v@) == trimmed_nonempty(views.take(i as int)),
        decreases parts.len() - i,
    {
        assert(views.take(i as int + 1).drop_last() == views.take(i as int));
        if parts[i].len() > 0 {
            let ghost before = out@;
            let t = vec_trim(&parts[i]);
            out.push(t);
            assert(out@.map_values(|v: Vec<char>| v@) =~= before.map_values(|v: Vec<char>| v@).push(
                t@,
            ));
        }
        i += 1;
    }
    assert(views.take(parts.len() as int) == views);
    out
}

fn normalize_chars(key: &Vec<char>) -> (out: Vec<char>)
    ensures
        out@ == normalized_key(key@),
{
    let trimmed = vec_trim(key);
    let slashed = replace_backslashes(&trimmed);
    let pieces = vec_split(&slashed, '/');
    let kept = keep_trimmed_nonempty(&pieces);
    let joined = vec_join(&kept, &one_char('/'));
    lower_vec(&joined)
}

/// Canonical form of a platform key: case-insensitive, `/` and `\` alike,
/// empty components ignored.
pub fn normalize_platform_key(key: &str) -> (out: String)
    ensures
        out@ == normalized_key(key@),
{
    string_of(&normalize_chars(&chars_of(key)))
}

/// Index of the first entry of `keys` equal to `k`, or -1.
pub open spec fn key_index(keys: Seq<Seq<char>>, k: Seq<char>) -> int
    decreases keys.len(),
{
    if keys.len() == 0 {
        -1
    } else {
        let prev = key_index(keys.drop_last(), k);
        if prev >= 0 {
            prev
        } else if keys.last() == k {
            keys.len() - 1
        } else {
            -1
        }
    }
}

pub proof fn lemma_key_index(keys: Seq<Seq<char>>, k: Seq<char>)
    ensures
        -1 <= key_index(keys, k) < keys.len(),
        key_index(keys, k) >= 0 ==> keys[key_index(keys, k)] == k,
        key_index(keys, k) >= 0 ==> forall|j: int| 0 <= j < key_index(keys, k) ==> keys[j] != k,
        key_index(keys, k) == -1 ==> forall|j: int| 0 <= j < keys.len() ==> keys[j] != k,
    decreases keys.len(),
{
    if keys.len() > 0 {
        lemma_key_index(keys.drop_last(), k);
        assert forall|j: int| 0 <= j < keys.len() - 1 implies keys.drop_last()[j] == keys[j] by {}
    }
}

/// Key/value store for platform integrations such as registry-style installer
/// metadata. Keys are kept in canonical form and are distinct.
pub struct PortablePlatformStore {
    keys: Vec<Vec<char>>,
    values: Vec<String>,
    path: Option<String>,
}

impl PortablePlatformStore {
    /// The stored keys.
    pub closed spec fn key_views(&self) -> Seq<Seq<char>> {
        self.keys@.map_values(|v: Vec<char>| v@)
    }

    /// Keys and values line up and no key occurs twice.
    pub closed spec fn wf(&self) -> bool {
        &&& self.keys.len() == self.values.len()
        &&& forall|i: int, j: int|
            0 <= i < j < self.keys.len() ==> self.keys@[i]@ != self.keys@[j]@
    }

    /// The store as a map from canonical key to value.
    pub closed spec fn map(&self) -> Map<Seq<char>, Seq<char>> {
        Map::new(
            |k: Seq<char>| key_index(self.key_views(), k) >= 0,
            |k: Seq<char>| self.values@[key_index(self.key_views(), k)]@,
        )
    }

    /// The file the store is saved to, when it has one.
    pub closed spec fn path_view(&self) -> Option<Seq<char>> {
        match self.path {
            Some(p) => Some(p@),
            None => None,
        }
    }

    /// An empty store with no file.
    pub fn new() -> (store: Self)
        ensures
            store.wf(),
            store.map() == Map::<Seq<char>, Seq<char>>::empty(),
            store.path_view() is None,
    {
        let store = PortablePlatformStore { keys: Vec::new(), values: Vec::new(), path: None };
        assert(store.map() =~= Map::<Seq<char>, Seq<char>>::empty());
        store
    }

    fn find_key(&self, k: &Vec<char>) -> (out: Option<usize>)
        requires
            self.wf(),
        ensures
            out is None <==> key_index(self.key_views(), k@) < 0,
            out matches Some(i) ==> i as int == key_index(self.key_views(), k@),
            out matches Some(i) ==> i < self.keys.len() && self.key_views()[i as int] == k@,
    {
        proof {
            lemma_key_index(self.key_views(), k@);
        }
        let mut i: usize = 0;
        while i < self.keys.len()
            invariant
                i <= self.keys.len(),
                forall|j: int| 0 <= j < i ==> self.key_views()[j] != k@,
            decreases self.keys.len() - i,
        {
            if vec_eq(&self.keys[i], k) {
                proof {
                    lemma_key_index(self.key_views(), k@);
                    assert(self.key_views()[i as int] == k@);
                }
                return Some(i);
            }
            assert(self.key_views()[i as int] == self.keys@[i as int]@);
            i += 1;
        }
        None
    }

    /// The value stored under the canonical form of `key`.
    pub fn get(&self, key: &str) -> (out: Option<&str>)
        requires
            self.wf(),
        ensures
            out is Some == self.map().contains_key(normalized_key(key@)),
            out matches Some(v) ==> v@ == self.map()[normalized_key(key@)],
    {
        let k = normalize_chars(&chars_of(key));
        match self.find_key(&k) {
            Some(i) => Some(self.values[i].as_str()),
            None => None,
        }
    }

    /// Each candidate, in order, that has a stored value, with that value.
    pub fn candidate_matches<'a>(&'a self, candidates: &[&'a str]) -> (out: Vec<(&'a str, &'a str)>)
        requires
            self.wf(),
        ensures
            out@.len() <= candidates@.len(),
            forall|i: int|
                0 <= i < out@.len() ==> self.map().contains_key(normalized_key(out@[i].0@))
                    && out@[i].1@ == self.map()[normalized_key(out@[i].0@)],
            forall|j: int|
                0 <= j < candidates@.len() && self.map().contains_key(
                    normalized_key(candidates@[j]@),
                ) ==> exists|i: int| 0 <= i < out@.len() && out@[i].0 == candidates@[j],
    {
        let mut out: Vec<(&'a str, &'a str)> = Vec::new();
        let mut j: usize = 0;
        while j < candidates.len()
            invariant
                self.wf(),
                j <= candidates.len(),
                out@.len() <= j,
                forall|i: int|
                    0 <= i < out@.len() ==> self.map().contains_key(normalized_key(out@[i].0@))
                        && out@[i].1@ == self.map()[normalized_key(out@[i].0@)],
                forall|m: int|
                    0 <= m < j && self.map().contains_key(normalized_key(candidates@[m]@))
                        ==> exists|i: int| 0 <= i < out@.len() && out@[i].0 == candidates@[m],
            decreases candidates.len() - j,
        {
            let candidate = candidates[j];
            let ghost before = out@;
            if let Some(value) = self.get(candidate) {
                out.push((candidate, value));
                assert(out@[out@.len() - 1].0 == candidates@[j as int]);
                assert forall|m: int|
                    0 <= m < j + 1 && self.map().contains_key(normalized_key(candidates@[m]@))
                        implies exists|i: int| 0 <= i < out@.len() && out@[i].0 == candidates@[m] by {
                    if m < j {
                        let i0 = choose|i: int| 0 <= i < before.len() && before[i].0 == candidates@[m];
                        assert(out@[i0] == before[i0]);
                    } else {
                        assert(out@[out@.len() - 1].0 == candidates@[m]);
                    }
                }
            }
            j += 1;
        }
        out
    }

    /// Keeps an already chosen file; otherwise adopts `path`.
    pub fn ensure_path(&mut self, path: String)
        ensures
            final(self).map() == old(self).map(),
            final(self).wf() == old(self).wf(),
            final(self).path_view() == match old(self).path_view() {
                Some(p) => Some(p),
                None => Some(path@),
            },
    {
        if self.path.is_none() {
            self.path = Some(path);
        }
    }

    /// The file the store is saved to.
    pub fn path(&self) -> (out: Option<&String>)
        ensures
            match (out, self.path_view()) {
                (Some(p), Some(q)) => p@ == q,
                (None, None) => true,
                _ => false,
            },
    {
        self.path.as_ref()
    }

    fn set_chars(&mut self, k: Vec<char>, value: String)
        requires
            old(self).wf(),
        ensures
            final(self).wf(),
            final(self).map() == old(self).map().insert(k@, value@),
            final(self).path_view() == old(self).path_view(),
    {
        proof {
            lemma_key_index(self.key_views(), k@);
        }
        match self.find_key(&k) {
            Some(i) => {
                let ghost old_keys = self.key_views();
                let ghost old_values = self.values@;
                let ghost vv = value@;
                self.values.set(i, value);
                assert(self.key_views() == old_keys);
                assert forall|q: Seq<char>| #[trigger] self.map().contains_key(q) implies
                    self.map()[q] == old(self).map().insert(k@, vv)[q] by {
                    lemma_key_index(old_keys, q);
                    if q != k@ {
                        assert(key_index(old_keys, q) != i);
                    }
                }
                assert(self.map() =~= old(self).map().insert(k@, vv));
            },
            None => {
                let ghost old_keys = self.key_views();
                let ghost kv = k@;
                self.keys.push(k);
                self.values.push(value);
                assert(self.key_views() =~= old_keys.push(kv));
                assert forall|a: int, b: int|
                    0 <= a < b < self.keys.len() implies self.keys@[a]@ != self.keys@[b]@ by {
                    assert(self.key_views()[a] == self.keys@[a]@);
                    assert(self.key_views()[b] == self.keys@[b]@);
                    if b == old_keys.len() {
                        assert(old_keys[a] != kv);
                    } else {
                        assert(old(self).keys@[a]@ == self.keys@[a]@);
                        assert(old(self).keys@[b]@ == self.keys@[b]@);
                    }
                }
                assert forall|q: Seq<char>|
                    key_index(old_keys, q) >= 0 implies key_index(old_keys.push(kv), q)
                    == key_index(old_keys, q) by {
                    assert(old_keys.push(kv).drop_last() == old_keys);
                }
                assert(old_keys.push(kv).drop_last() == old_keys);
                assert(key_index(old_keys.push(kv), kv) == old_keys.len());
                assert forall|q: Seq<char>|
                    key_index(old_keys, q) < 0 && q != kv implies key_index(old_keys.push(kv), q)
                    == -1 by {
                    assert(old_keys.push(kv).drop_last() == old_keys);
                }
                assert forall|q: Seq<char>| #[trigger] self.map().contains_key(q) implies
                    self.map()[q] == old(self).map().insert(kv, self.values@[old_keys.len() as int]@)[q] by {
                    lemma_key_index(old_keys, q);
                }
                assert(self.map() =~= old(self).map().insert(kv, self.values@[old_keys.len() as int]@));
            },
        }
    }

    /// Stores `value` under the canonical form of `key`, replacing any earlier value.
    pub fn set(&mut self, key: &str, value: String)
        requires
            old(self).wf(),
        ensures
            final(self).wf(),
            final(self).map() == old(self).map().insert(normalized_key(key@), value@),
            final(self).path_view() == old(self).path_view(),
    {
        let k = normalize_chars(&chars_of(key));
        self.set_chars(k, value);
    }

    /// Removes the value under the canonical form of `key`; true when there was one.
    pub fn remove(&mut self, key: &str) -> (removed: bool)
        requires
            old(self).wf(),
        ensures
            final(self).wf(),
            removed == old(self).map().contains_key(normalized_key(key@)),
            final(self).map() == old(self).map().remove(normalized_key(key@)),
            final(self).path_view() == old(self).path_view(),
    {
        let k = normalize_chars(&chars_of(key));
        proof {
            lemma_key_index(self.key_views(), k@);
        }
        match self.find_key(&k) {
            Some(i) => {
                let ghost old_keys = self.key_views();
                let ghost old_values = self.values@;
                self.keys.remove(i);
                self.values.remove(i);
                assert(self.key_views() =~= old_keys.remove(i as int));
                assert forall|q: Seq<char>| q != k@ implies ((#[trigger] key_index(
                    self.key_views(),
                    q,
                ) >= 0) == (key_index(old_keys, q) >= 0)) && (key_index(old_keys, q) >= 0
                    ==> self.values@[key_index(self.key_views(), q)]@ == old_values[key_index(
                    old_keys,
                    q,
                )]@) by {
                    lemma_key_index(old_keys, q);
                    lemma_key_index(self.key_views(), q);
                    let a = key_index(old_keys, q);
                    let b = key_index(self.key_views(), q);
                    if a >= 0 {
                        let e = if a < i { a } else { a - 1 };
                        assert(self.key_views()[e] == q);
                        assert(b >= 0);
                        if b != e {
                            let ob = if b < i { b } else { b + 1 };
                            assert(old_keys[ob] == q);
                        }
                    }
                    if b >= 0 {
                        let ob = if b < i { b } else { b + 1 };
                        assert(old_keys[ob] == q);
                    }
                }
                assert forall|q: Seq<char>| q == k@ implies key_index(self.key_views(), q) < 0 by {
                    lemma_key_index(self.key_views(), q);
                    let b = key_index(self.key_views(), q);
                    if b >= 0 {
                        let ob = if b < i { b } else { b + 1 };
                        assert(old_keys[ob] == q);
                    }
                }
                assert(self.map() =~= old(self).map().remove(k@));
                true
            },
            None => {
                assert(self.map() =~= old(self).map().remove(k@));
                false
            },
        }
    }

    /// Every stored key with its value, in storage order.
    pub fn entries(&self) -> (out: Vec<(String, String)>)
        requires
            self.wf(),
        ensures
            out@.len() == self.key_views().len(),
            forall|i: int|
                0 <= i < out@.len() ==> self.map().contains_key(out@[i].0@) && out@[i].1@
                    == self.map()[out@[i].0@],
            forall|k: Seq<char>|
                self.map().contains_key(k) ==> exists|i: int| 0 <= i < out@.len() && out@[i].0@ == k,
    {
        let mut out: Vec<(String, String)> = Vec::new();
        let mut i: usize = 0;
        while i < self.keys.len()
            invariant
                self.wf(),
                i <= self.keys.len(),
                out@.len() == i,
                forall|j: int|
                    0 <= j < i ==> out@[j].0@ == self.key_views()[j] && out@[j].1@
                        == self.values@[j]@,
            decreases self.keys.len() - i,
        {
            let k = string_of(&self.keys[i]);
            let v = self.values[i].clone();
            out.push((k, v));
            i += 1;
        }
        assert forall|j: int| 0 <= j < out@.len() implies self.map().contains_key(out@[j].0@)
            && out@[j].1@ == self.map()[out@[j].0@] by {
            lemma_key_index(self.key_views(), out@[j].0@);
            assert(self.key_views()[j] == self.keys@[j]@);
            let a = key_index(self.key_views(), out@[j].0@);
            assert(a >= 0);
            assert(self.key_views()[a] == self.keys@[a]@);
            if a != j {
                assert(self.keys@[a]@ == self.keys@[j]@);
            }
        }
        assert forall|k: Seq<char>| self.map().contains_key(k) implies exists|i: int|
            0 <= i < out@.len() && out@[i].0@ == k by {
            lemma_key_index(self.key_views(), k);
            let a = key_index(self.key_views(), k);
            assert(out@[a].0@ == k);
        }
        out
    }
}


/// std's `str::lines`: the pieces between `\n`s, where a piece that ended in
/// `\n` also loses one trailing `\r`, and an empty last piece is no line.
pub open spec fn lines_seq(text: Seq<char>) -> Seq<Seq<char>> {
    let parts = split_seq(text, '\n');
    let n = if parts.last().len() == 0 {
        parts.len() - 1
    } else {
        parts.len() as int
    };
    Seq::new(
        n as nat,
        |i: int|
            if i < parts.len() - 1 && parts[i].len() > 0 && parts[i].last() == '\r' {
                parts[i].drop_last()
            } else {
                parts[i]
            },
    )
}

/// Whether a trimmed store line carries nothing: empty, or a `#` or `;` comment.
pub open spec fn is_blank_or_comment(line: Seq<char>) -> bool {
    line.len() == 0 || starts_with(line, seq!['#']) || starts_with(line, seq![';'])
}

/// The store built from the first `n` lines: each `key=value` line (split at
/// its first `=`) stores the trimmed value under the canonical key, later lines
/// winning; blank, comment and `=`-less lines add nothing.
pub open spec fn load_map(lines: Seq<Seq<char>>, n: int) -> Map<Seq<char>, Seq<char>>
    decreases n,
{
    if n <= 0 {
        Map::empty()
    } else {
        let m = load_map(lines, n - 1);
        let line = trim_seq(lines[n - 1]);
        if is_blank_or_comment(line) {
            m
        } else {
            match find_at(line, seq!['='], 0) {
                None => m,
                Some(k) => m.insert(normalized_key(line.take(k)), trim_seq(line.skip(k + 1))),
            }
        }
    }
}

/// One-based numbers of the lines among the first `n` that are neither blank,
/// comments nor `key=value` lines.
pub open spec fn ignored_lines(lines: Seq<Seq<char>>, n: int) -> Seq<int>
    decreases n,
{
    if n <= 0 {
        Seq::empty()
    } else {
        let prev = ignored_lines(lines, n - 1);
        let line = trim_seq(lines[n - 1]);
        if !is_blank_or_comment(line) && find_at(line, seq!['='], 0) is None {
            prev.push(n)
        } else {
            prev
        }
    }
}

fn text_lines(text: &Vec<char>) -> (out: Vec<Vec<char>>)
    ensures
        out@.map_values(|v: Vec<char>| v@) == lines_seq(text@),
{
    let parts = vec_split(text, '\n');
    let ghost pv = parts@.map_values(|v: Vec<char>| v@);
    proof {
        lemma_split_nonempty(text@, '\n');
    }
    let n = if parts[parts.len() - 1].len() == 0 {
        parts.len() - 1
    } else {
        parts.len()
    };
    let ghost expected = lines_seq(text@);
    let mut out: Vec<Vec<char>> = Vec::new();
    let mut i: usize = 0;
    while i < n
        invariant
            i <= n <= parts.len(),
            pv == parts@.map_values(|v: Vec<char>| v@),
            pv == split_seq(text@, '\n'),
            expected == lines_seq(text@),
            expected.len() == n,
            out@.map_values(|v: Vec<char>| v@) == expected.take(i as int),
        decreases n - i,
    {
        let piece = &parts[i];
        let line = if i < parts.len() - 1 && piece.len() > 0 && piece[piece.len() - 1] == '\r' {
            vec_take(piece, piece.len() - 1)
        } else {
            vec_take(piece, piece.len())
        };
        assert(piece@.take(piece@.len() as int) == piece@);
        assert(line@ == expected[i as int]);
        let ghost before = out@;
        out.push(line);
        assert(out@.map_values(|v: Vec<char>| v@) =~= before.map_values(|v: Vec<char>| v@).push(
            line@,
        ));
        assert(expected.take(i as int + 1) =~= expected.take(i as int).push(expected[i as int]));
        i += 1;
    }
    assert(expected.take(n as int) == expected);
    out
}

impl PortablePlatformStore {
    /// Reads store text of `key=value` lines; returns the store (with no file)
    /// and the one-based numbers of the lines it ignored for lacking `=`.
    pub fn from_text(text: &str) -> (out: (PortablePlatformStore, Vec<usize>))
        ensures
            out.0.wf(),
            out.0.map() == load_map(lines_seq(text@), lines_seq(text@).len() as int),
            out.0.path_view() is None,
            out.1@.map_values(|n: usize| n as int) == ignored_lines(
                lines_seq(text@),
                lines_seq(text@).len() as int,
            ),
    {
        let lines = text_lines(&chars_of(text));
        let ghost lv = lines@.map_values(|v: Vec<char>| v@);
        let mut store = PortablePlatformStore::new();
        let mut ignored: Vec<usize> = Vec::new();
        let eq = one_char('=');
        let hash = one_char('#');
        let semi = one_char(';');
        let mut i: usize = 0;
        while i < lines.len()
            invariant
                i <= lines.len(),
                lv == lines@.map_values(|v: Vec<char>| v@),
                lv == lines_seq(text@),
                eq@ == seq!['='],
                hash@ == seq!['#'],
                semi@ == seq![';'],
                store.wf(),
                store.path_view() is None,
                store.map() == load_map(lv, i as int),
                ignored@.map_values(|n: usize| n as int) == ignored_lines(lv, i as int),
            decreases lines.len() - i,
        {
            let line = vec_trim(&lines[i]);
            assert(line@ == trim_seq(lv[i as int]));
            if line.len() == 0 || vec_starts_with(&line, &hash) || vec_starts_with(&line, &semi) {
                i += 1;
                continue;
            }
            proof {
                lemma_find_at_bounds(line@, seq!['='], 0);
            }
            match vec_find_at(&line, &eq, 0) {
                None => {
                    let ghost before = ignored@;
                    ignored.push(i + 1);
                    assert(ignored@.map_values(|n: usize| n as int) =~= before.map_values(
                        |n: usize| n as int,
                    ).push(i + 1));
                },
                Some(k) => {
                    let key = vec_take(&line, k);
                    let value = vec_trim(&vec_skip(&line, k + 1));
                    let nk = normalize_chars(&key);
                    store.set_chars(nk, string_of(&value));
                },
            }
            i += 1;
        }
        (store, ignored)
    }
}

} // verus!

verus! {

/// Whether a cursor-info flags word reports the cursor as suppressed (bit 1).
pub fn cursor_suppressed(flags: u32) -> (out: bool)
    ensures
        out == (flags & 2 != 0),
{
    flags & 2 != 0
}


/// A character map that keeps whitespace and non-whitespace apart.
pub open spec fn keeps_ws(f: spec_fn(char) -> char) -> bool {
    forall|c: char| #[trigger] is_ws(f(c)) == is_ws(c)
}

/// A character map that sends exactly `/` to `/`.
pub open spec fn keeps_slash(f: spec_fn(char) -> char) -> bool {
    forall|c: char| (#[trigger] f(c) == '/') == (c == '/')
}

proof fn lemma_skip_ws_map(s: Seq<char>, f: spec_fn(char) -> char, i: int)
    requires
        keeps_ws(f),
        0 <= i,
    ensures
        skip_ws_from(s.map_values(f), i) == skip_ws_from(s, i),
    decreases s.len() - i,
{
    if i < s.len() {
        assert(is_ws(f(s[i])) == is_ws(s[i]));
        lemma_skip_ws_map(s, f, i + 1);
    }
}

proof fn lemma_trim_end_map(s: Seq<char>, f: spec_fn(char) -> char, lo: int, j: int)
    requires
        keeps_ws(f),
        0 <= lo,
        j <= s.len(),
    ensures
        trim_end_from(s.map_values(f), lo, j) == trim_end_from(s, lo, j),
    decreases j - lo,
{
    if j > lo {
        if j - 1 >= 0 {
            assert(is_ws(f(s[j - 1])) == is_ws(s[j - 1]));
        }
        lemma_trim_end_map(s, f, lo, j - 1);
    }
}

/// Trimming commutes with a character map that keeps whitespace apart.
proof fn lemma_trim_map(s: Seq<char>, f: spec_fn(char) -> char)
    requires
        keeps_ws(f),
    ensures
        trim_seq(s.map_values(f)) == trim_seq(s).map_values(f),
{
    lemma_skip_ws_map(s, f, 0);
    let lo = skip_ws_from(s, 0);
    lemma_trim_bounds(s, 0);
    lemma_trim_end_map(s, f, lo, s.len() as int);
    lemma_trim_end_bounds(s, lo, s.len() as int);
    assert(trim_seq(s.map_values(f)) =~= trim_seq(s).map_values(f));
}

/// Splitting at `/` commutes with a map that sends exactly `/` to `/`.
proof fn lemma_split_map(s: Seq<char>, f: spec_fn(char) -> char)
    requires
        keeps_slash(f),
    ensures
        split_seq(s.map_values(f), '/') == split_seq(s, '/').map_values(|p: Seq<char>| p.map_values(f)),
    decreases s.len(),
{
    lemma_split_nonempty(s, '/');
    assert(Seq::<char>::empty().map_values(f) =~= Seq::<char>::empty());
    if s.len() == 0 {
        assert(s.map_values(f) =~= Seq::<char>::empty());
        assert(split_seq(s, '/').map_values(|p: Seq<char>| p.map_values(f)) =~= seq![Seq::<char>::empty()]);
    } else {
        let m = s.map_values(f);
        assert(m.drop_last() =~= s.drop_last().map_values(f));
        lemma_split_map(s.drop_last(), f);
        lemma_split_nonempty(s.drop_last(), '/');
        assert(f(s.last()) == '/' <==> s.last() == '/');
        let prev = split_seq(s.drop_last(), '/');
        let g = |p: Seq<char>| p.map_values(f);
        if s.last() == '/' {
            assert(split_seq(s, '/').map_values(g) =~= prev.map_values(g).push(Seq::empty()));
        } else {
            let n = prev.len() - 1;
            assert(prev.last().push(s.last()).map_values(f) =~= prev.last().map_values(f).push(f(s.last())));
            assert(split_seq(s, '/').map_values(g) =~= prev.map_values(g).update(
                n,
                prev.map_values(g).last().push(f(s.last())),
            ));
        }
    }
}

/// Dropping empty pieces and trimming the rest commutes with a map that
/// keeps whitespace apart.
proof fn lemma_trimmed_nonempty_map(parts: Seq<Seq<char>>, f: spec_fn(char) -> char)
    requires
        keeps_ws(f),
    ensures
        trimmed_nonempty(parts.map_values(|p: Seq<char>| p.map_values(f))) == trimmed_nonempty(parts).map_values(
            |p: Seq<char>| p.map_values(f),
        ),
    decreases parts.len(),
{
    let g = |p: Seq<char>| p.map_values(f);
    if parts.len() == 0 {
        assert(parts.map_values(g) =~= Seq::<Seq<char>>::empty());
        assert(trimmed_nonempty(parts).map_values(g) =~= Seq::<Seq<char>>::empty());
    } else {
        assert(parts.map_values(g).drop_last() =~= parts.drop_last().map_values(g));
        lemma_trimmed_nonempty_map(parts.drop_last(), f);
        lemma_trim_map(parts.last(), f);
        let prev = trimmed_nonempty(parts.drop_last());
        if parts.last().len() > 0 {
            assert(trimmed_nonempty(parts).map_values(g) =~= prev.map_values(g).push(trim_seq(parts.last()).map_values(f)));
        } else {
            assert(trimmed_nonempty(parts).map_values(g) =~= prev.map_values(g));
        }
    }
}

/// Joining with `/` commutes with a map that keeps `/`.
proof fn lemma_join_map(parts: Seq<Seq<char>>, f: spec_fn(char) -> char)
    requires
        f('/') == '/',
    ensures
        join_seq(parts.map_values(|p: Seq<char>| p.map_values(f)), seq!['/']) == join_seq(parts, seq!['/']).map_values(f),
    decreases parts.len(),
{
    let g = |p: Seq<char>| p.map_values(f);
    if parts.len() == 0 {
        assert(join_seq(parts, seq!['/']).map_values(f) =~= Seq::<char>::empty());
    } else if parts.len() == 1 {
        assert(parts.map_values(g)[0] == parts[0].map_values(f));
    } else {
        assert(parts.map_values(g).drop_last() =~= parts.drop_last().map_values(g));
        lemma_join_map(parts.drop_last(), f);
        assert((join_seq(parts.drop_last(), seq!['/']) + seq!['/'] + parts.last()).map_values(f) =~= join_seq(
            parts.drop_last(),
            seq!['/'],
        ).map_values(f) + seq!['/'] + parts.last().map_values(f));
    }
}

/// The canonical form of a key whose case and separators were already
/// folded: trimmed, split at `/`, empty pieces dropped, the rest trimmed,
/// joined with `/`.
pub open spec fn folded_key(x: Seq<char>) -> Seq<char> {
    join_seq(trimmed_nonempty(split_seq(trim_seq(x), '/')), seq!['/'])
}

/// A key's canonical form depends only on its ASCII-lowered text with `\`
/// read as `/`.
pub proof fn law_normalized_key_folds_case_and_separators(key: Seq<char>)
    ensures
        normalized_key(key) == folded_key(lower_seq(slashes_seq(key))),
{
    let lower = |c: char| lower_char(c);
    let slash = |c: char| if c == '\\' { '/' } else { c };
    assert(keeps_ws(lower)) by {
        assert forall|c: char| #[trigger] is_ws(lower(c)) == is_ws(c) by {}
    }
    assert(keeps_slash(lower)) by {
        assert forall|c: char| (#[trigger] lower(c) == '/') == (c == '/') by {}
    }
    assert(keeps_ws(slash)) by {
        assert forall|c: char| #[trigger] is_ws(slash(c)) == is_ws(c) by {}
    }
    let x = slashes_seq(trim_seq(key));
    assert(x == trim_seq(key).map_values(slash));
    lemma_trim_map(key, slash);
    assert(slashes_seq(key) == key.map_values(slash));
    assert(x == trim_seq(slashes_seq(key)));
    let y = lower_seq(slashes_seq(key));
    assert(y == slashes_seq(key).map_values(lower));
    lemma_trim_map(slashes_seq(key), lower);
    assert(lower_seq(x) =~= x.map_values(lower));
    assert(lower_seq(x) == trim_seq(y));
    let parts = split_seq(x, '/');
    lemma_split_map(x, lower);
    lemma_trimmed_nonempty_map(parts, lower);
    lemma_join_map(trimmed_nonempty(parts), lower);
    assert(normalized_key(key) == lower_seq(join_seq(trimmed_nonempty(parts), seq!['/'])));
    assert(lower_seq(join_seq(trimmed_nonempty(parts), seq!['/'])) =~= join_seq(trimmed_nonempty(parts), seq!['/']).map_values(lower));
}

/// Keys that differ only in ASCII case and in using `\` or `/` name the same
/// store entry.
pub proof fn law_keys_ignore_case_and_separator_kind(a: Seq<char>, b: Seq<char>)
    requires
        lower_seq(slashes_seq(a)) == lower_seq(slashes_seq(b)),
    ensures
        normalized_key(a) == normalized_key(b),
{
    law_normalized_key_folds_case_and_separators(a);
    law_normalized_key_folds_case_and_separators(b);
}


/// A value stored under one spelling of a key is found under every spelling
/// with the same canonical form, and is gone after removal under any of
/// them; other entries are untouched.
pub proof fn law_store_set_get_remove(
    m: Map<Seq<char>, Seq<char>>,
    key: Seq<char>,
    other_spelling: Seq<char>,
    value: Seq<char>,
    unrelated: Seq<char>,
)
    requires
        normalized_key(other_spelling) == normalized_key(key),
        normalized_key(unrelated) != normalized_key(key),
    ensures
        m.insert(normalized_key(key), value).contains_key(normalized_key(other_spelling)),
        m.insert(normalized_key(key), value)[normalized_key(other_spelling)] == value,
        !m.insert(normalized_key(key), value).remove(normalized_key(other_spelling)).contains_key(normalized_key(key)),
        m.insert(normalized_key(key), value).contains_key(normalized_key(unrelated)) == m.contains_key(
            normalized_key(unrelated),
        ),
        m.contains_key(normalized_key(unrelated)) ==> m.insert(normalized_key(key), value)[normalized_key(unrelated)]
            == m[normalized_key(unrelated)],
{
}

proof fn lemma_skip_ws_lands_on_text(s: Seq<char>, i: int)
    requires
        0 <= i <= s.len(),
    ensures
        skip_ws_from(s, i) < s.len() ==> !is_ws(s[skip_ws_from(s, i)]),
    decreases s.len() - i,
{
    if i < s.len() && is_ws(s[i]) {
        lemma_skip_ws_lands_on_text(s, i + 1);
    }
}

proof fn lemma_trim_end_lands_on_text(s: Seq<char>, lo: int, j: int)
    requires
        lo <= j,
    ensures
        trim_end_from(s, lo, j) > lo ==> !is_ws(s[trim_end_from(s, lo, j) - 1]),
    decreases j - lo,
{
    if j > lo && is_ws(s[j - 1]) {
        lemma_trim_end_lands_on_text(s, lo, j - 1);
    }
}

/// A value that a store line gives has neither leading nor trailing
/// whitespace.
pub proof fn law_loaded_values_are_trimmed(lines: Seq<Seq<char>>, n: int, key: Seq<char>)
    requires
        0 <= n <= lines.len(),
        load_map(lines, n).contains_key(key),
    ensures
        ({
            let v = load_map(lines, n)[key];
            v.len() > 0 ==> !is_ws(v[0]) && !is_ws(v[v.len() - 1])
        }),
    decreases n,
{
    let m = load_map(lines, n - 1);
    let line = trim_seq(lines[n - 1]);
    if !is_blank_or_comment(line) {
        match find_at(line, seq!['='], 0) {
            None => {
                law_loaded_values_are_trimmed(lines, n - 1, key);
            },
            Some(k) => {
                if key == normalized_key(line.take(k)) {
                    let raw = line.skip(k + 1);
                    let lo = skip_ws_from(raw, 0);
                    lemma_trim_bounds(raw, 0);
                    lemma_trim_end_bounds(raw, lo, raw.len() as int);
                    lemma_skip_ws_lands_on_text(raw, 0);
                    lemma_trim_end_lands_on_text(raw, lo, raw.len() as int);
                    let hi = trim_end_from(raw, lo, raw.len() as int);
                    let v = trim_seq(raw);
                    assert(v == raw.subrange(lo, hi));
                    if v.len() > 0 {
                        assert(v[0] == raw[lo]);
                        assert(v[v.len() - 1] == raw[hi - 1]);
                    }
                } else {
                    law_loaded_values_are_trimmed(lines, n - 1, key);
                }
            },
        }
    } else {
        law_loaded_values_are_trimmed(lines, n - 1, key);
    }
}

} // verus!
