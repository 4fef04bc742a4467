use vstd::prelude::*;
use crate::text::{
    chars_of, decimal, is_digit, lower_seq, lower_vec, parse_u32, parse_u32_spec,
    rfind, starts_with, string_of, u32_decimal, vec_concat, vec_eq, vec_rfind, vec_skip,
    vec_starts_with, vec_take,
};

verus! {

/// The views of a sequence of strings.
pub open spec fn strings_view(v: Seq<String>) -> Seq<Seq<char>> {
    v.map_values(|s: String| s@)
}

/// Splits a sprite expression into its leading body digit and the face that
/// follows it; the face must not be empty.
pub open spec fn split_body_spec(expression: Seq<char>) -> Option<(int, Seq<char>)> {
    if expression.len() >= 2 && is_digit(expression[0]) {
        Some((((expression[0] as u32) - 48) as int, expression.skip(1)))
    } else {
        None
    }
}

/// Splits `expression` into its body digit and its (non-empty) face.
pub fn split_body_expression(expression: &str) -> (out: Option<(i32, String)>)
    ensures
        match (out, split_body_spec(expression@)) {
            (Some((b, f)), Some((sb, sf))) => b == sb && f@ == sf,
            (None, None) => true,
            _ => false,
        },
{
    let e = chars_of(expression);
    if e.len() < 2 || !('0' <= e[0] && e[0] <= '9') {
        return None;
    }
    let body = (e[0] as u32 - 48) as i32;
    let face = vec_skip(&e, 1);
    Some((body, string_of(&face)))
}

pub open spec fn expression_marker() -> Seq<char> {
    seq!['_', 'd', '_']
}

/// The alternative faces tried, in order, after the requested one.
pub open spec fn fallback_faces(face: Seq<char>) -> Seq<Seq<char>> {
    seq![
        face,
        seq!['a', '0', '1'],
        seq!['a', '0', '3'],
        seq!['c', '0', '1'],
        seq!['e', '0', '1'],
        seq!['1', 'b', 'a', 's', 'e'],
        seq!['2', 'b', 'a', 's', 'e'],
        seq!['3', 'b', 'a', 's', 'e'],
    ]
}

/// The bodies tried, in order: the requested one, then 1, 2 and 3.
pub open spec fn fallback_bodies(body: int) -> Seq<int> {
    seq![body, 1, 2, 3]
}

/// Every body/face combination, bodies outermost.
pub open spec fn alias_candidates(head: Seq<char>, body: int, face: Seq<char>) -> Seq<Seq<char>> {
    Seq::new(
        32,
        |k: int|
            head + expression_marker() + decimal(fallback_bodies(body)[k / 8] as nat)
                + fallback_faces(face)[k % 8],
    )
}

/// The first `n` candidates, each kept only when it differs from `excluded`
/// and from every candidate kept before it.
pub open spec fn dedup_excluding(cands: Seq<Seq<char>>, excluded: Seq<char>, n: int) -> Seq<
    Seq<char>,
>
    decreases n,
{
    if n <= 0 {
        Seq::empty()
    } else {
        let prev = dedup_excluding(cands, excluded, n - 1);
        let x = cands[n - 1];
        if x != excluded && !prev.contains(x) {
            prev.push(x)
        } else {
            prev
        }
    }
}

/// Fallback names for a lower-cased character sprite `head_d_<body><face>`.
pub open spec fn character_aliases_spec(lower: Seq<char>) -> Seq<Seq<char>> {
    match rfind(lower, expression_marker()) {
        None => Seq::empty(),
        Some(k) => match split_body_spec(lower.skip(k + 3)) {
            None => Seq::empty(),
            Some((body, face)) => dedup_excluding(
                alias_candidates(lower.take(k), body, face),
                lower,
                32,
            ),
        },
    }
}

fn faces_vec(face: &Vec<char>) -> (out: Vec<Vec<char>>)
    ensures
        out.len() == 8,
        forall|i: int| 0 <= i < 8 ==> (#[trigger] out@[i])@ == fallback_faces(face@)[i],
{
    let mut out: Vec<Vec<char>> = Vec::new();
    out.push(vec_skip(face, 0));
    out.push(vec!['a', '0', '1']);
    out.push(vec!['a', '0', '3']);
    out.push(vec!['c', '0', '1']);
    out.push(vec!['e', '0', '1']);
    out.push(vec!['1', 'b', 'a', 's', 'e']);
    out.push(vec!['2', 'b', 'a', 's', 'e']);
    out.push(vec!['3', 'b', 'a', 's', 'e']);
    assert(face@.skip(0) == face@);
    out
}

fn contains_chars(list: &Vec<Vec<char>>, x: &Vec<char>) -> (out: bool)
    ensures
        out == list@.map_values(|v: Vec<char>| v@).contains(x@),
{
    let ghost views = list@.map_values(|v: Vec<char>| v@);
    let mut i: usize = 0;
    while i < list.len()
        invariant
            i <= list.len(),
            views == list@.map_values(|v: Vec<char>| v@),
            forall|j: int| 0 <= j < i ==> views[j] != x@,
        decreases list.len() - i,
    {
        if vec_eq(&list[i], x) {
            assert(views[i as int] == x@);
            return true;
        }
        i += 1;
    }
    false
}

fn aliases_of_lower(lower: &Vec<char>) -> (out: Vec<Vec<char>>)
    ensures
        out@.map_values(|v: Vec<char>| v@) == character_aliases_spec(lower@),
{
    let marker: Vec<char> = vec!['_', 'd', '_'];
    assert(marker@ == expression_marker());
    let k = match vec_rfind(lower, &marker) {
        Some(k) => k,
        None => {
            let empty: Vec<Vec<char>> = Vec::new();
            assert(empty@.map_values(|v: Vec<char>| v@) =~= Seq::<Seq<char>>::empty());
            return empty;
        },
    };
    let head = vec_take(lower, k);
    let expression = vec_skip(lower, k + 3);
    if expression.len() < 2 || !('0' <= expression[0] && expression[0] <= '9') {
        let empty: Vec<Vec<char>> = Vec::new();
        assert(empty@.map_values(|v: Vec<char>| v@) =~= Seq::<Seq<char>>::empty());
        return empty;
    }
    let body = expression[0] as u32 - 48;
    let face = vec_skip(&expression, 1);
    let faces = faces_vec(&face);
    let bodies: [u32; 4] = [body, 1, 2, 3];
    let ghost cands = alias_candidates(head@, body as int, face@);
    let prefix = vec_concat(&head, &marker);
    let mut out: Vec<Vec<char>> = Vec::new();
    let mut n: usize = 0;
    while n < 32
        invariant
            n <= 32,
            faces.len() == 8,
            forall|i: int| 0 <= i < 8 ==> (#[trigger] faces@[i])@ == fallback_faces(face@)[i],
            bodies@ == seq![body, 1u32, 2u32, 3u32],
            prefix@ == head@ + expression_marker(),
            cands == alias_candidates(head@, body as int, face@),
            out@.map_values(|v: Vec<char>| v@) == dedup_excluding(cands, lower@, n as int),
        decreases 32 - n,
    {
        let b = bodies[n / 8];
        let with_body = vec_concat(&prefix, &u32_decimal(b));
        let candidate = vec_concat(&with_body, &faces[n % 8]);
        assert(candidate@ == cands[n as int]);
        let seen = contains_chars(&out, &candidate);
        if !vec_eq(&candidate, lower) && !seen {
            out.push(candidate);
            assert(out@.map_values(|v: Vec<char>| v@) =~= dedup_excluding(
                cands,
                lower@,
                n as int,
            ).push(cands[n as int]));
        }
        n += 1;
    }
    out
}

fn strings_of(list: &Vec<Vec<char>>) -> (out: Vec<String>)
    ensures
        strings_view(out@) == list@.map_values(|v: Vec<char>| v@),
{
    let mut out: Vec<String> = Vec::new();
    let mut i: usize = 0;
    while i < list.len()
        invariant
            i <= list.len(),
            strings_view(out@) == list@.map_values(|v: Vec<char>| v@).take(i as int),
        decreases list.len() - i,
    {
        let ghost before = out@;
        let item = string_of(&list[i]);
        out.push(item);
        assert(out@ == before.push(item));
        assert(strings_view(out@) =~= strings_view(before).push(item@));
        assert(list@.map_values(|v: Vec<char>| v@).take(i as int + 1) =~= list@.map_values(
            |v: Vec<char>| v@,
        ).take(i as int).push(list@[i as int]@));
        i += 1;
    }
    assert(list@.map_values(|v: Vec<char>| v@).take(list.len() as int) =~= list@.map_values(
        |v: Vec<char>| v@,
    ));
    out
}

/// Fallback names for a lower-cased character sprite: every body in
/// `[body, 1, 2, 3]` with every face in `[face, a01, a03, c01, e01, 1base,
/// 2base, 3base]`, skipping the requested name and repeats.
pub fn character_sprite_aliases(lower: &str) -> (out: Vec<String>)
    ensures
        strings_view(out@) == character_aliases_spec(lower@),
{
    strings_of(&aliases_of_lower(&chars_of(lower)))
}

pub open spec fn ef_soft() -> Seq<char> {
    seq!['e', 'f', '_', 's', 'o', 'f', 't']
}

/// For `ef_soft<n>`: `ef_soft<n-1>` down to `ef_soft2`, then `ef_soft`.
pub open spec fn soft_effect_aliases(lower: Seq<char>) -> Seq<Seq<char>> {
    if starts_with(lower, ef_soft()) {
        match parse_u32_spec(lower.skip(7)) {
            Some(number) => Seq::new(
                if number > 2 {
                    (number - 2) as nat
                } else {
                    0
                },
                |i: int| ef_soft() + decimal((number - 1 - i) as nat),
            ).push(ef_soft()),
            None => Seq::empty(),
        }
    } else {
        Seq::empty()
    }
}

/// Names tried, in order, when a scenario image is not found under its own name.
pub open spec fn image_aliases_spec(requested: Seq<char>) -> Seq<Seq<char>> {
    soft_effect_aliases(lower_seq(requested)) + character_aliases_spec(lower_seq(requested))
}

/// Fallback resource names for a scenario image, tried in order.
pub fn scenario_image_aliases(requested: &str) -> (out: Vec<String>)
    ensures
        strings_view(out@) == image_aliases_spec(requested@),
{
    let lower = lower_vec(&chars_of(requested));
    let soft: Vec<char> = vec!['e', 'f', '_', 's', 'o', 'f', 't'];
    assert(soft@ == ef_soft());
    let mut aliases: Vec<Vec<char>> = Vec::new();
    if vec_starts_with(&lower, &soft) {
        let suffix = vec_skip(&lower, 7);
        if let Some(number) = parse_u32(&suffix) {
            let ghost total: nat = if number > 2 {
                (number - 2) as nat
            } else {
                0
            };
            let ghost expected = Seq::new(
                total,
                |i: int| ef_soft() + decimal((number - 1 - i) as nat),
            );
            let mut candidate = number;
            while candidate > 2
                invariant
                    candidate <= number,
                    soft@ == ef_soft(),
                    number > 2 ==> candidate >= 2,
                    number <= 2 ==> candidate == number,
                    total == if number > 2 {
                        (number - 2) as nat
                    } else {
                        0
                    },
                    expected == Seq::new(
                        total,
                        |i: int| ef_soft() + decimal((number - 1 - i) as nat),
                    ),
                    aliases@.map_values(|v: Vec<char>| v@) == expected.take(
                        (number - candidate) as int,
                    ),
                decreases candidate,
            {
                let ghost before = aliases@;
                candidate -= 1;
                let item = vec_concat(&soft, &u32_decimal(candidate));
                aliases.push(item);
                let ghost idx = (number - candidate - 1) as int;
                assert(0 <= idx < total);
                assert(expected[idx] == ef_soft() + decimal(candidate as nat));
                assert(aliases@ == before.push(item));
                assert(aliases@.map_values(|v: Vec<char>| v@) =~= before.map_values(
                    |v: Vec<char>| v@,
                ).push(item@));
                assert(expected.take(idx + 1) =~= expected.take(idx).push(expected[idx]));
            }
            if number > 2 {
                assert(candidate == 2);
                assert(expected.take((number - candidate) as int) =~= expected);
            } else {
                assert(expected.take((number - candidate) as int) =~= expected);
            }
            let ghost before_last = aliases@;
            let last = vec_concat(&soft, &Vec::new());
            aliases.push(last);
            assert(soft@ + Seq::<char>::empty() == soft@);
            assert(aliases@.map_values(|v: Vec<char>| v@) =~= before_last.map_values(
                |v: Vec<char>| v@,
            ).push(last@));
        }
    }
    assert(aliases@.map_values(|v: Vec<char>| v@) == soft_effect_aliases(lower@));
    let characters = aliases_of_lower(&lower);
    let mut i: usize = 0;
    let ghost base = aliases@.map_values(|v: Vec<char>| v@);
    while i < characters.len()
        invariant
            i <= characters.len(),
            aliases@.map_values(|v: Vec<char>| v@) == base + characters@.map_values(
                |v: Vec<char>| v@,
            ).take(i as int),
        decreases characters.len() - i,
    {
        let ghost before = aliases@;
        let item = vec_skip(&characters[i], 0);
        aliases.push(item);
        assert(characters@[i as int]@.skip(0) == characters@[i as int]@);
        assert(aliases@.map_values(|v: Vec<char>| v@) =~= before.map_values(|v: Vec<char>| v@).push(
            item@,
        ));
        assert(characters@.map_values(|v: Vec<char>| v@).take(i as int + 1) =~= characters@.map_values(
            |v: Vec<char>| v@,
        ).take(i as int).push(characters@[i as int]@));
        assert(aliases@.map_values(|v: Vec<char>| v@) =~= base + characters@.map_values(
            |v: Vec<char>| v@,
        ).take(i as int + 1));
        i += 1;
    }
    assert(characters@.map_values(|v: Vec<char>| v@).take(characters.len() as int)
        =~= characters@.map_values(|v: Vec<char>| v@));
    strings_of(&aliases)
}

proof fn lemma_dedup_keeps(cands: Seq<Seq<char>>, excluded: Seq<char>, n: int, j: int)
    requires
        0 <= j < n,
        cands[j] != excluded,
    ensures
        dedup_excluding(cands, excluded, n).contains(cands[j]),
    decreases n,
{
    let prev = dedup_excluding(cands, excluded, n - 1);
    if j == n - 1 {
        if !prev.contains(cands[j]) {
            assert(prev.push(cands[j])[prev.len() as int] == cands[j]);
        }
    } else {
        lemma_dedup_keeps(cands, excluded, n - 1, j);
        let i = choose|i: int| 0 <= i < prev.len() && prev[i] == cands[j];
        let x = cands[n - 1];
        if x != excluded && !prev.contains(x) {
            assert(prev.push(x)[i] == cands[j]);
        }
    }
}

proof fn lemma_dedup_excludes(cands: Seq<Seq<char>>, excluded: Seq<char>, n: int)
    ensures
        !dedup_excluding(cands, excluded, n).contains(excluded),
    decreases n,
{
    if n > 0 {
        lemma_dedup_excludes(cands, excluded, n - 1);
        let prev = dedup_excluding(cands, excluded, n - 1);
        let x = cands[n - 1];
        if x != excluded && !prev.contains(x) {
            assert forall|i: int| 0 <= i < prev.len() + 1 implies prev.push(x)[i] != excluded by {
                if i < prev.len() {
                    assert(prev.push(x)[i] == prev[i]);
                }
            }
        }
    }
}

/// For a sprite `head_d_<body><face>`, the fallback names are every body in
/// `[body, 1, 2, 3]` with every face in `[face, a01, a03, c01, e01, 1base,
/// 2base, 3base]`, except the requested name itself, which is never among
/// them.
pub proof fn law_aliases_try_every_body_and_face(lower: Seq<char>, k: int, body: int, face: Seq<char>, bi: int, fi: int)
    requires
        rfind(lower, seq!['_', 'd', '_']) == Some(k),
        split_body_spec(lower.skip(k + 3)) == Some((body, face)),
        0 <= bi < 4,
        0 <= fi < 8,
    ensures
        !character_aliases_spec(lower).contains(lower),
        ({
            let b = seq![body, 1int, 2int, 3int][bi];
            let f = seq![
                face,
                seq!['a', '0', '1'],
                seq!['a', '0', '3'],
                seq!['c', '0', '1'],
                seq!['e', '0', '1'],
                seq!['1', 'b', 'a', 's', 'e'],
                seq!['2', 'b', 'a', 's', 'e'],
                seq!['3', 'b', 'a', 's', 'e'],
            ][fi];
            let name = lower.take(k) + seq!['_', 'd', '_'] + decimal(b as nat) + f;
            name != lower ==> character_aliases_spec(lower).contains(name)
        }),
{
    assert(expression_marker() == seq!['_', 'd', '_']);
    let cands = alias_candidates(lower.take(k), body, face);
    lemma_dedup_excludes(cands, lower, 32);
    let idx = bi * 8 + fi;
    assert(idx / 8 == bi && idx % 8 == fi) by (nonlinear_arith)
        requires
            idx == bi * 8 + fi,
            0 <= fi < 8,
            0 <= bi < 4,
    ;
    assert(0 <= idx < 32);
    let b = seq![body, 1int, 2int, 3int][bi];
    let f = seq![
        face,
        seq!['a', '0', '1'],
        seq!['a', '0', '3'],
        seq!['c', '0', '1'],
        seq!['e', '0', '1'],
        seq!['1', 'b', 'a', 's', 'e'],
        seq!['2', 'b', 'a', 's', 'e'],
        seq!['3', 'b', 'a', 's', 'e'],
    ][fi];
    assert(fallback_bodies(body)[bi] == b);
    assert(fallback_faces(face)[fi] == f);
    let name = lower.take(k) + seq!['_', 'd', '_'] + decimal(b as nat) + f;
    assert(cands[idx] == name);
    if name != lower {
        lemma_dedup_keeps(cands, lower, 32, idx);
    }
}

} // verus!
