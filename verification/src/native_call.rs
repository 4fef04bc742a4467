use vstd::prelude::*;

verus! {

/// A value on the script machine's stack as native calls read it: an
/// integer, a string, or anything else, which is also the result of a call
/// that returns nothing (`Void`).
#[derive(Debug)]
pub enum NativeValue {
    Void,
    Int(i32),
    Str(String),
}

/// Pops the top value and reads it as an integer (`None` for another kind
/// of value or an empty stack).
pub open spec fn pop_int_spec(args: Seq<NativeValue>) -> (Seq<NativeValue>, Option<i32>) {
    if args.len() == 0 {
        (args, None)
    } else {
        (
            args.drop_last(),
            match args.last() {
                NativeValue::Int(v) => Some(v),
                _ => None,
            },
        )
    }
}

/// Pops the top value and reads it as a string (empty for another kind of
/// value or an empty stack).
pub open spec fn pop_str_spec(args: Seq<NativeValue>) -> (Seq<NativeValue>, Seq<char>) {
    if args.len() == 0 {
        (args, Seq::empty())
    } else {
        (
            args.drop_last(),
            match args.last() {
                NativeValue::Str(s) => s@,
                _ => Seq::empty(),
            },
        )
    }
}

/// An integer argument, 0 when missing.
pub open spec fn pop0(args: Seq<NativeValue>) -> (Seq<NativeValue>, i32) {
    (
        pop_int_spec(args).0,
        match pop_int_spec(args).1 {
            Some(v) => v,
            None => 0,
        },
    )
}

/// Popping an integer just pushed gives it back and the stack before.
pub proof fn lemma_pop_pushed_int(rest: Seq<NativeValue>, v: i32)
    ensures
        pop0(rest.push(NativeValue::Int(v))) == (rest, v),
{
    assert(rest.push(NativeValue::Int(v)).drop_last() =~= rest);
}

/// Pops the top value, whatever it is.
pub open spec fn pop_any_spec(args: Seq<NativeValue>) -> Seq<NativeValue> {
    if args.len() == 0 {
        args
    } else {
        args.drop_last()
    }
}

/// The integer `depth` values below the top, if that value is one.
pub open spec fn int_at_depth(args: Seq<NativeValue>, depth: int) -> Option<i32> {
    if 0 <= depth < args.len() {
        match args[args.len() - 1 - depth] {
            NativeValue::Int(v) => Some(v),
            _ => None,
        }
    } else {
        None
    }
}

/// Pops an integer argument, or `default` (see [`pop_int_spec`]).
pub fn pop_int_value(args: &mut Vec<NativeValue>, default: i32) -> (out: i32)
    ensures
        final(args)@ == pop_int_spec(old(args)@).0,
        out == match pop_int_spec(old(args)@).1 {
            Some(v) => v,
            None => default,
        },
{
    match args.pop() {
        Some(NativeValue::Int(v)) => v,
        _ => default,
    }
}

/// Pops a string argument, empty when it is none (see [`pop_str_spec`]).
pub fn pop_string_value(args: &mut Vec<NativeValue>) -> (out: String)
    ensures
        final(args)@ == pop_str_spec(old(args)@).0,
        out@ == pop_str_spec(old(args)@).1,
{
    match args.pop() {
        Some(NativeValue::Str(s)) => s,
        _ => String::new(),
    }
}

/// Pops a value, reporting whether there was one.
pub fn pop_any_value(args: &mut Vec<NativeValue>) -> (present: bool)
    ensures
        final(args)@ == pop_any_spec(old(args)@),
        present == (old(args)@.len() > 0),
{
    args.pop().is_some()
}

/// A value read as an integer: an integer's value, 0 for anything else.
pub open spec fn value_int(v: NativeValue) -> i32 {
    match v {
        NativeValue::Int(i) => i,
        _ => 0,
    }
}

/// Takes the top `n` values as integers in the order the script pushed
/// them; a stack holding fewer is emptied and gives none.
pub open spec fn source_ints_spec(args: Seq<NativeValue>, n: nat) -> (Seq<NativeValue>, Option<Seq<i32>>) {
    if args.len() >= n {
        (args.take(args.len() - n), Some(args.skip(args.len() - n).map_values(|v: NativeValue| value_int(v))))
    } else {
        (Seq::empty(), None)
    }
}

/// Pops the top `n` values as integers in the order the script pushed them
/// (see [`source_ints_spec`]).
pub fn pop_source_ints(args: &mut Vec<NativeValue>, n: usize) -> (out: Option<Vec<i32>>)
    ensures
        final(args)@ == source_ints_spec(old(args)@, n as nat).0,
        match (out, source_ints_spec(old(args)@, n as nat).1) {
            (Some(v), Some(w)) => v@ == w,
            (None, None) => true,
            _ => false,
        },
{
    let len = args.len();
    let start: usize = if len >= n {
        len - n
    } else {
        0
    };
    let mut values: Vec<i32> = Vec::new();
    let mut i = start;
    while i < len
        invariant
            start <= i <= len,
            len == args@.len(),
            args@ == old(args)@,
            values@ == old(args)@.subrange(start as int, i as int).map_values(|v: NativeValue| value_int(v)),
        decreases len - i,
    {
        let v: i32 = match &args[i] {
            NativeValue::Int(x) => *x,
            _ => 0,
        };
        values.push(v);
        assert(old(args)@.subrange(start as int, i + 1).map_values(|v: NativeValue| value_int(v)) =~= old(
            args,
        )@.subrange(start as int, i as int).map_values(|v: NativeValue| value_int(v)).push(v));
        i += 1;
    }
    while args.len() > start
        invariant
            start <= args@.len() <= len,
            len == old(args)@.len(),
            args@ == old(args)@.take(args@.len() as int),
        decreases args@.len(),
    {
        let _ = args.pop();
    }
    assert(args@ =~= old(args)@.take(start as int));
    if len >= n {
        assert(old(args)@.subrange(start as int, len as int) =~= old(args)@.skip(len - n));
        assert(args@ =~= source_ints_spec(old(args)@, n as nat).0);
        Some(values)
    } else {
        assert(args@ =~= Seq::<NativeValue>::empty());
        None
    }
}

/// Up to `n` values from the top, top first.
pub open spec fn popped_values_spec(args: Seq<NativeValue>, n: nat) -> Seq<NativeValue> {
    if args.len() >= n {
        args.skip(args.len() - n).reverse()
    } else {
        args.reverse()
    }
}

/// Pops up to `n` values, top first.
pub fn pop_values(args: &mut Vec<NativeValue>, n: usize) -> (values: Vec<NativeValue>)
    ensures
        final(args)@ == source_ints_spec(old(args)@, n as nat).0,
        values@ == popped_values_spec(old(args)@, n as nat),
{
    let ghost a0 = args@;
    let mut values: Vec<NativeValue> = Vec::new();
    let mut k: usize = 0;
    let len = args.len();
    while k < n && args.len() > 0
        invariant
            k <= n,
            len == a0.len(),
            args@.len() + k == len,
            args@ == a0.take(args@.len() as int),
            values@.len() == k,
            forall|j: int| 0 <= j < k ==> #[trigger] values@[j] == a0[len - 1 - j],
        decreases n - k,
    {
        let v = args.pop().unwrap();
        values.push(v);
        k += 1;
    }
    assert(values@ =~= popped_values_spec(a0, n as nat));
    if len >= n {
        assert(args@ =~= source_ints_spec(a0, n as nat).0);
    } else {
        assert(args@ =~= Seq::<NativeValue>::empty());
    }
    values
}

} // verus!
