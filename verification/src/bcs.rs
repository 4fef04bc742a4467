use vstd::prelude::*;

verus! {

/// A BURIKO script operand.
#[derive(Debug)]
pub enum BcsValue {
    Int(i32),
    Str(String),
    Addr(i32),
    BaseOffset(i32),
    MemoryAddr(i32),
    Mul(Box<BcsValue>, Box<BcsValue>),
    CheckNote(Box<BcsValue>),
    Line,
    Arg2,
}

/// The instruction names the scenario player knows; anything else is
/// `Other`.
#[derive(Debug, Clone, Copy, PartialEq, Eq, Structural)]
pub enum BcsName {
    PushDword,
    PushString,
    PushOffset,
    PushBaseOffset,
    Nargs,
    Jmp,
    Jc,
    Call,
    Ret,
    GetStackPointer,
    LoadBase,
    SetStackPointer,
    StoreBase,
    WriteMemCopy,
    Move,
    WriteMem,
    MoveArg,
    ReadMem,
    Load,
    GlobalSet,
    GlobalGet,
    Add,
    Sub,
    Mul,
    Div,
    Mod,
    And,
    Or,
    Xor,
    Shl,
    Shr,
    Sar,
    Not,
    BoolZero,
    Ternary,
    Sin,
    Cos,
    Eq,
    Neq,
    Leq,
    Geq,
    Lt,
    Gt,
    BoolAnd,
    BoolOr,
    SourceLine,
    Cmd0xe3,
    Cmd0xe2,
    EndIf,
    CheckTranslatorNote,
    RegExceptionHandler,
    UnregExceptionHandler,
    ResolveSymbol,
    Sprite,
    Bg,
    BgTransition,
    Bg240,
    SpriteHide,
    SpriteHideAll,
    Wait,
    Cmd0x120,
    Say,
    Msg,
    Sound,
    Sound1a0,
    Snd,
    ExecScript,
    Other,
}

/// One decoded instruction: its address, opcode, name and operands.
#[derive(Debug)]
pub struct BcsCommand {
    pub addr: u32,
    pub opcode: u32,
    pub name: BcsName,
    pub args: Vec<BcsValue>,
}

/// A label of the program's symbol table.
#[derive(Debug, Clone)]
pub struct BcsSymbol {
    pub name: String,
    pub addr: u32,
}

/// A decoded script: its instructions in order and its labels.
#[derive(Debug)]
pub struct BcsProgram {
    pub commands: Vec<BcsCommand>,
    pub symbols: Vec<BcsSymbol>,
}

/// The integer an operand stands for: plain integers and addresses as they
/// are, a product of two integer operands (wrapping), a translator-note
/// wrapper by its content; strings and line markers stand for none.
pub open spec fn value_int(v: BcsValue) -> Option<i32>
    decreases v,
{
    match v {
        BcsValue::Int(x) => Some(x),
        BcsValue::Addr(x) => Some(x),
        BcsValue::BaseOffset(x) => Some(x),
        BcsValue::MemoryAddr(x) => Some(x),
        BcsValue::Mul(l, r) => match (value_int(*l), value_int(*r)) {
            (Some(a), Some(b)) => Some(a.wrapping_mul(b)),
            _ => None,
        },
        BcsValue::CheckNote(x) => value_int(*x),
        _ => None,
    }
}

/// The integer an operand stands for (see [`value_int`]).
pub fn value_i32(value: &BcsValue) -> (out: Option<i32>)
    ensures
        out == value_int(*value),
    decreases value,
{
    match value {
        BcsValue::Int(x) => Some(*x),
        BcsValue::Addr(x) => Some(*x),
        BcsValue::BaseOffset(x) => Some(*x),
        BcsValue::MemoryAddr(x) => Some(*x),
        BcsValue::Mul(l, r) => {
            let a = match value_i32(l) {
                Some(a) => a,
                None => {
                    return None;
                },
            };
            let b = match value_i32(r) {
                Some(b) => b,
                None => {
                    return None;
                },
            };
            Some(a.wrapping_mul(b))
        },
        BcsValue::CheckNote(x) => value_i32(x),
        BcsValue::Str(_) => None,
        BcsValue::Line => None,
        BcsValue::Arg2 => None,
    }
}

impl BcsValue {
    /// A copy of the operand.
    pub fn duplicate(&self) -> (r: Self)
        ensures
            r == *self,
        decreases self,
    {
        match self {
            BcsValue::Int(x) => BcsValue::Int(*x),
            BcsValue::Str(s) => BcsValue::Str(s.clone()),
            BcsValue::Addr(x) => BcsValue::Addr(*x),
            BcsValue::BaseOffset(x) => BcsValue::BaseOffset(*x),
            BcsValue::MemoryAddr(x) => BcsValue::MemoryAddr(*x),
            BcsValue::Mul(l, r) => {
                let a = (**l).duplicate();
                let b = (**r).duplicate();
                BcsValue::Mul(Box::new(a), Box::new(b))
            },
            BcsValue::CheckNote(x) => BcsValue::CheckNote(Box::new((**x).duplicate())),
            BcsValue::Line => BcsValue::Line,
            BcsValue::Arg2 => BcsValue::Arg2,
        }
    }
}

/// The strings an operand holds, left to right, looking into products and
/// translator notes.
pub open spec fn value_strings(v: BcsValue) -> Seq<Seq<char>>
    decreases v,
{
    match v {
        BcsValue::Str(s) => seq![s@],
        BcsValue::Mul(l, r) => value_strings(*l) + value_strings(*r),
        BcsValue::CheckNote(x) => value_strings(*x),
        _ => Seq::empty(),
    }
}

/// The strings a list of operands holds, in order.
pub open spec fn strings_of(values: Seq<BcsValue>) -> Seq<Seq<char>>
    decreases values.len(),
{
    if values.len() == 0 {
        Seq::empty()
    } else {
        strings_of(values.drop_last()) + value_strings(values.last())
    }
}

/// The integers a list of operands stands for, in order, skipping those
/// that stand for none.
pub open spec fn ints_of(values: Seq<BcsValue>) -> Seq<i32>
    decreases values.len(),
{
    if values.len() == 0 {
        Seq::empty()
    } else {
        let prev = ints_of(values.drop_last());
        match value_int(values.last()) {
            Some(x) => prev.push(x),
            None => prev,
        }
    }
}

fn collect_strings(value: &BcsValue, out: &mut Vec<String>)
    ensures
        final(out)@.map_values(|s: String| s@) == old(out)@.map_values(|s: String| s@) + value_strings(*value),
    decreases value,
{
    match value {
        BcsValue::Str(s) => {
            let ghost before = out@.map_values(|s: String| s@);
            out.push(s.clone());
            assert(out@.map_values(|s: String| s@) =~= before + seq![s@]);
        },
        BcsValue::Mul(l, r) => {
            let ghost before = out@.map_values(|s: String| s@);
            collect_strings(l, out);
            collect_strings(r, out);
            assert(out@.map_values(|s: String| s@) =~= before + (value_strings(**l) + value_strings(**r)));
        },
        BcsValue::CheckNote(x) => collect_strings(x, out),
        _ => {
            assert(out@.map_values(|s: String| s@) =~= old(out)@.map_values(|s: String| s@) + Seq::empty());
        },
    }
}

/// The strings the operands hold, in order (see [`strings_of`]).
pub fn strings(values: &[BcsValue]) -> (out: Vec<String>)
    ensures
        out@.map_values(|s: String| s@) == strings_of(values@),
{
    let mut out: Vec<String> = Vec::new();
    let mut i: usize = 0;
    while i < values.len()
        invariant
            i <= values@.len(),
            out@.map_values(|s: String| s@) == strings_of(values@.take(i as int)),
        decreases values.len() - i,
    {
        assert(values@.take(i as int + 1).drop_last() =~= values@.take(i as int));
        collect_strings(&values[i], &mut out);
        i += 1;
    }
    assert(values@.take(values@.len() as int) =~= values@);
    out
}

/// The integers the operands stand for, in order (see [`ints_of`]).
pub fn ints(values: &[BcsValue]) -> (out: Vec<i32>)
    ensures
        out@ == ints_of(values@),
{
    let mut out: Vec<i32> = Vec::new();
    let mut i: usize = 0;
    while i < values.len()
        invariant
            i <= values@.len(),
            out@ == ints_of(values@.take(i as int)),
        decreases values.len() - i,
    {
        assert(values@.take(i as int + 1).drop_last() =~= values@.take(i as int));
        match value_i32(&values[i]) {
            Some(x) => out.push(x),
            None => {},
        }
        i += 1;
    }
    assert(values@.take(values@.len() as int) =~= values@);
    out
}

} // verus!
