use vstd::prelude::*;
use crate::bcs::{BcsCommand, BcsName, BcsSymbol, BcsValue, ints_of, strings_of, value_int};
use crate::scenario::script_name_spec;
use crate::scenario_action::{ActionModel, ScriptTransfer, StrKind, is_kind};
use crate::scenario_builder::{BuilderModel, emit_spec, invocation_spec};
use crate::text::{ends_with, starts_with};

verus! {

/// What a `resolve_symbol` instruction found for the next offset push or
/// script transfer.
#[derive(Debug)]
pub enum ResolvedSymbol {
    /// A label of the running program, by address.
    Local(u32),
    /// A label in another script, or that script's entry.
    External { file: String, symbol: Option<String> },
}

/// A script transfer that waits for the host to load the script.
#[derive(Debug)]
pub struct PendingExternalScript {
    pub symbol: Option<String>,
    pub transfer: ScriptTransfer,
}

/// The two trigonometric instructions, which the host evaluates.
#[derive(Debug, Clone, Copy, PartialEq, Eq, Structural)]
pub enum TrigFunction {
    Sin,
    Cos,
}

/// The state of one running program: its code, position, operand stack,
/// frame memory, return addresses, argument count and resolved symbol.
pub struct FrameModel {
    pub commands: Seq<BcsCommand>,
    pub symbols: Seq<BcsSymbol>,
    pub pc: usize,
    pub stack: Seq<BcsValue>,
    pub pointer: i32,
    pub memory: Map<i32, BcsValue>,
    pub calls: Seq<usize>,
    pub pending: Option<usize>,
    pub resolved: Option<ResolvedSymbol>,
}

/// The whole player: the running program, the programs that called into
/// other scripts, the script-wide globals, the presentation builder and the
/// waiting state.
pub struct VmModel {
    pub frame: FrameModel,
    pub external: Seq<FrameModel>,
    pub globals: Map<i32, BcsValue>,
    pub builder: BuilderModel,
    pub wait_frames: u32,
    pub waiting_for_input: bool,
    pub completed: bool,
    pub wait_return_ready: bool,
    pub awaiting: Option<PendingExternalScript>,
    pub trig: Option<(TrigFunction, i32)>,
}

/// The instruction index of each address; where two instructions share an
/// address, the later one.
pub open spec fn index_map(commands: Seq<BcsCommand>) -> Map<u32, usize>
    decreases commands.len(),
{
    if commands.len() == 0 {
        Map::empty()
    } else {
        index_map(commands.drop_last()).insert(
            commands.last().addr,
            (commands.len() - 1) as usize,
        )
    }
}

/// A fresh frame running `commands` from `pc`.
pub open spec fn fresh_frame(commands: Seq<BcsCommand>, symbols: Seq<BcsSymbol>, pc: usize) -> FrameModel {
    FrameModel {
        commands,
        symbols,
        pc,
        stack: Seq::empty(),
        pointer: 0,
        memory: Map::empty(),
        calls: Seq::empty(),
        pending: None,
        resolved: None,
    }
}

/// The address of the first label named `name`.
pub open spec fn find_symbol(symbols: Seq<BcsSymbol>, name: Seq<char>) -> Option<u32>
    decreases symbols.len(),
{
    if symbols.len() == 0 {
        None
    } else if symbols[0].name@ == name {
        Some(symbols[0].addr)
    } else {
        find_symbol(symbols.drop_first(), name)
    }
}

/// Pops a value; an empty stack gives `Int(0)`.
pub open spec fn pop_value(stack: Seq<BcsValue>) -> (Seq<BcsValue>, BcsValue) {
    if stack.len() == 0 {
        (stack, BcsValue::Int(0))
    } else {
        (stack.drop_last(), stack.last())
    }
}

/// Pops an integer; an empty stack, or a value that is no integer, gives 0.
pub open spec fn pop_int(stack: Seq<BcsValue>) -> (Seq<BcsValue>, i32) {
    if stack.len() == 0 {
        (stack, 0)
    } else {
        (
            stack.drop_last(),
            match value_int(stack.last()) {
                Some(v) => v,
                None => 0,
            },
        )
    }
}

/// Pops a frame-memory address: a memory address as it is, a base offset
/// below the frame pointer, any other value by its integer (0 for none).
pub open spec fn pop_memory_address(stack: Seq<BcsValue>, pointer: i32) -> (Seq<BcsValue>, i32) {
    if stack.len() == 0 {
        (stack, 0)
    } else {
        (
            stack.drop_last(),
            match stack.last() {
                BcsValue::MemoryAddr(a) => a,
                BcsValue::BaseOffset(o) => pointer.wrapping_sub(o),
                v => match value_int(v) {
                    Some(x) => x,
                    None => 0,
                },
            },
        )
    }
}

/// Splits off the pending arguments: the top `count` values (all of them
/// when fewer), none when no count is pending.
pub open spec fn take_args(stack: Seq<BcsValue>, pending: Option<usize>) -> (Seq<BcsValue>, Seq<BcsValue>) {
    match pending {
        None => (stack, Seq::empty()),
        Some(count) => {
            let split = if stack.len() >= count {
                stack.len() - count
            } else {
                0
            };
            (stack.take(split), stack.skip(split))
        },
    }
}

/// Kinds of string operand that the stack is searched for.
#[derive(Debug, Clone, Copy, PartialEq, Eq, Structural)]
pub enum StackMark {
    /// A string starting with `_`: a library function name.
    Function,
    /// A string ending with `.txt`: a source file name.
    SourceFile,
    /// A script name.
    Script,
}

/// Whether `v` is a string of the given mark.
pub open spec fn has_mark(mark: StackMark, v: BcsValue) -> bool {
    match v {
        BcsValue::Str(t) => match mark {
            StackMark::Function => starts_with(t@, seq!['_']),
            StackMark::SourceFile => ends_with(t@, seq!['.', 't', 'x', 't']),
            StackMark::Script => script_name_spec(t@),
        },
        _ => false,
    }
}

/// The index of the last value of `s` with the mark.
pub open spec fn last_mark(s: Seq<BcsValue>, mark: StackMark) -> Option<int>
    decreases s.len(),
{
    if s.len() == 0 {
        None
    } else if has_mark(mark, s.last()) {
        Some(s.len() - 1)
    } else {
        last_mark(s.drop_last(), mark)
    }
}

/// The operands of a library call: from two values after the last source
/// file name below the function name (at most up to the function name), or
/// else the forty values below it, through the top of the stack; none when
/// no function name is on the stack.
pub open spec fn call_context(stack: Seq<BcsValue>) -> (Seq<BcsValue>, Seq<BcsValue>) {
    match last_mark(stack, StackMark::Function) {
        None => (stack, Seq::empty()),
        Some(fi) => {
            let start = match last_mark(stack.take(fi), StackMark::SourceFile) {
                Some(j) => if j + 2 <= fi {
                    j + 2
                } else {
                    fi
                },
                None => if fi >= 40 {
                    fi - 40
                } else {
                    0
                },
            };
            (stack.take(start), stack.skip(start))
        },
    }
}

/// The operands of a script transfer: the pending arguments when a count is
/// pending; else the values from the last script name up, when there are at
/// most four; else none.
pub open spec fn jump_context(stack: Seq<BcsValue>, pending: Option<usize>) -> (Seq<BcsValue>, Seq<BcsValue>) {
    if pending is Some {
        take_args(stack, pending)
    } else {
        match last_mark(stack, StackMark::Script) {
            None => (stack, Seq::empty()),
            Some(i) => if stack.len() - i > 4 {
                (stack, Seq::empty())
            } else {
                (stack.take(i), stack.skip(i))
            },
        }
    }
}

/// The first string of `strs` of kind `kind`.
pub open spec fn first_of_kind(strs: Seq<Seq<char>>, kind: StrKind) -> Option<Seq<char>>
    decreases strs.len(),
{
    if strs.len() == 0 {
        None
    } else if is_kind(kind, strs[0]) {
        Some(strs[0])
    } else {
        first_of_kind(strs.drop_first(), kind)
    }
}

/// The value an offset push leaves: an address offset from a resolved local
/// label's address, any other value as it is.
pub open spec fn offset_value(resolved: Option<ResolvedSymbol>, v: BcsValue) -> BcsValue {
    match (resolved, v) {
        (Some(ResolvedSymbol::Local(base)), BcsValue::Addr(offset)) => BcsValue::Addr(
            base.wrapping_add(offset as u32) as i32,
        ),
        (_, v) => v,
    }
}

/// The value a base-offset push leaves: the frame address below the frame
/// pointer, any other value as it is.
pub open spec fn base_offset_value(pointer: i32, v: BcsValue) -> BcsValue {
    match v {
        BcsValue::BaseOffset(offset) => BcsValue::MemoryAddr(pointer.wrapping_sub(offset)),
        v => v,
    }
}

/// The model with a new frame state.
pub open spec fn with_frame(s: VmModel, f: FrameModel) -> VmModel {
    VmModel { frame: f, ..s }
}

/// The model with a new operand stack.
pub open spec fn with_stack(s: VmModel, stack: Seq<BcsValue>) -> VmModel {
    with_frame(s, FrameModel { stack, ..s.frame })
}

/// A jump to an address: to its instruction when the program has one,
/// otherwise the script ends.
pub open spec fn jump_spec(s: VmModel, target: i32) -> VmModel {
    let map = index_map(s.frame.commands);
    let a = target as u32;
    if map.contains_key(a) {
        with_frame(s, FrameModel { pc: map[a], ..s.frame })
    } else {
        VmModel { completed: true, ..s }
    }
}

/// Truncating division of integers.
pub open spec fn trunc_div(a: int, b: int) -> int {
    let q = (if a < 0 {
        -a
    } else {
        a
    }) / (if b < 0 {
        -b
    } else {
        b
    });
    if (a < 0) != (b < 0) {
        -q
    } else {
        q
    }
}

/// Truncating remainder of integers: it takes the sign of `a`.
pub open spec fn trunc_rem(a: int, b: int) -> int {
    let r = (if a < 0 {
        -a
    } else {
        a
    }) % (if b < 0 {
        -b
    } else {
        b
    });
    if a < 0 {
        -r
    } else {
        r
    }
}

/// Integer arithmetic as the script machine does it: wrapping, with a zero
/// divisor giving 0 and shift counts taken modulo 32.
pub open spec fn binary_spec(name: BcsName, left: i32, right: i32) -> i32 {
    match name {
        BcsName::Add => left.wrapping_add(right),
        BcsName::Sub => left.wrapping_sub(right),
        BcsName::Mul => left.wrapping_mul(right),
        BcsName::Div => if right == 0 {
            0
        } else {
            trunc_div(left as int, right as int) as i32
        },
        BcsName::Mod => if right == 0 {
            0
        } else {
            trunc_rem(left as int, right as int) as i32
        },
        BcsName::And => left & right,
        BcsName::Or => left | right,
        BcsName::Xor => left ^ right,
        BcsName::Shl => ((left as u32) << ((right as u32) & 31)) as i32,
        BcsName::Shr => ((left as u32) >> ((right as u32) & 31)) as i32,
        BcsName::Sar => left >> ((right as u32) & 31),
        _ => 0,
    }
}

/// Comparisons and logical connectives, as 1 or 0.
pub open spec fn comparison_spec(name: BcsName, left: i32, right: i32) -> bool {
    match name {
        BcsName::Eq => left == right,
        BcsName::Neq => left != right,
        BcsName::Leq => left <= right,
        BcsName::Geq => left >= right,
        BcsName::Lt => left < right,
        BcsName::Gt => left > right,
        BcsName::BoolAnd => left != 0 && right != 0,
        BcsName::BoolOr => left != 0 || right != 0,
        _ => false,
    }
}

pub open spec fn is_binary(name: BcsName) -> bool {
    name == BcsName::Add || name == BcsName::Sub || name == BcsName::Mul || name == BcsName::Div
        || name == BcsName::Mod || name == BcsName::And || name == BcsName::Or || name
        == BcsName::Xor || name == BcsName::Shl || name == BcsName::Shr || name == BcsName::Sar
}

pub open spec fn is_comparison(name: BcsName) -> bool {
    name == BcsName::Eq || name == BcsName::Neq || name == BcsName::Leq || name == BcsName::Geq
        || name == BcsName::Lt || name == BcsName::Gt || name == BcsName::BoolAnd || name
        == BcsName::BoolOr
}

/// A `ret`: back to the caller in this program, else back to the program
/// that loaded this one, else the script ends.
pub open spec fn ret_spec(s: VmModel) -> VmModel {
    if s.frame.calls.len() > 0 {
        with_frame(
            s,
            FrameModel {
                pc: s.frame.calls.last(),
                calls: s.frame.calls.drop_last(),
                ..s.frame
            },
        )
    } else if s.external.len() > 0 {
        VmModel { frame: s.external.last(), external: s.external.drop_last(), ..s }
    } else {
        VmModel { completed: true, ..s }
    }
}

/// A `resolve_symbol`: with a script name below the symbol, an external
/// target in that script; otherwise a local label named by a string symbol.
pub open spec fn resolve_spec(s: VmModel) -> VmModel {
    let stack = s.frame.stack;
    if stack.len() == 0 {
        s
    } else {
        let sym = stack.last();
        let rest = stack.drop_last();
        let external = rest.len() > 0 && has_mark(StackMark::Script, rest.last());
        if external {
            let file = match rest.last() {
                BcsValue::Str(f) => f,
                _ => arbitrary(),
            };
            let symbol = match sym {
                BcsValue::Str(x) => Some(x),
                _ => None,
            };
            with_frame(
                s,
                FrameModel {
                    stack: rest.drop_last(),
                    resolved: Some(ResolvedSymbol::External { file, symbol }),
                    ..s.frame
                },
            )
        } else {
            let resolved = match sym {
                BcsValue::Str(x) => match find_symbol(s.frame.symbols, x@) {
                    Some(a) => Some(ResolvedSymbol::Local(a)),
                    None => None,
                },
                _ => None,
            };
            with_frame(s, FrameModel { stack: rest, resolved, ..s.frame })
        }
    }
}

/// A script transfer (`0xF0`, `0xF3`): to the resolved external target, or
/// else to the first script name among the transfer's operands. It waits
/// for the host to load the script and asks for it with a `LoadScript`
/// action; without a target nothing more happens.
pub open spec fn external_script_spec(s: VmModel) -> VmModel {
    let s1 = with_frame(s, FrameModel { resolved: None, ..s.frame });
    match s.frame.resolved {
        Some(ResolvedSymbol::External { file, symbol }) => request_script_spec(s1, file@, symbol),
        _ => {
            let (rest, args) = jump_context(s.frame.stack, s.frame.pending);
            let s2 = with_frame(s1, FrameModel { stack: rest, pending: None, ..s1.frame });
            match first_of_kind(strings_of(args), StrKind::Script) {
                Some(file) => request_script_spec(s2, file, None),
                None => s2,
            }
        },
    }
}

/// Waiting for a script to be loaded and called, with the action that asks
/// for it.
pub open spec fn request_script_spec(s: VmModel, file: Seq<char>, symbol: Option<String>) -> VmModel {
    VmModel {
        awaiting: Some(PendingExternalScript { symbol, transfer: ScriptTransfer::Call }),
        builder: emit_spec(
            s.builder,
            ActionModel::LoadScript {
                file,
                symbol: match symbol {
                    Some(x) => Some(x@),
                    None => None,
                },
                transfer: ScriptTransfer::Call,
            },
        ),
        ..s
    }
}

/// An engine command: a script transfer, or an invocation that the builder
/// turns into actions, with the library call context or the pending
/// arguments as its operands.
pub open spec fn engine_command_spec(s: VmModel, opcode: u32, name: BcsName) -> VmModel {
    if opcode == 0xf0 || opcode == 0xf3 {
        external_script_spec(s)
    } else {
        let (rest, args) = if opcode == 0x1c {
            call_context(s.frame.stack)
        } else {
            take_args(s.frame.stack, s.frame.pending)
        };
        let pending = if opcode == 0x1c {
            s.frame.pending
        } else {
            None
        };
        VmModel {
            frame: FrameModel { stack: rest, pending, ..s.frame },
            builder: invocation_spec(s.builder, opcode, name, args),
            ..s
        }
    }
}

/// The last integer of the operands, when there is one.
pub open spec fn last_int(args: Seq<BcsValue>) -> Option<i32> {
    let all = ints_of(args);
    if all.len() == 0 {
        None
    } else {
        Some(all.last())
    }
}

/// One instruction, the position already past it.
pub open spec fn execute_spec(s: VmModel, opcode: u32, name: BcsName, args: Seq<BcsValue>) -> VmModel {
    let f = s.frame;
    match name {
        BcsName::PushDword | BcsName::PushString => with_stack(s, f.stack + args),
        BcsName::PushOffset => with_frame(
            s,
            FrameModel {
                stack: f.stack + args.map_values(|v: BcsValue| offset_value(f.resolved, v)),
                resolved: None,
                ..f
            },
        ),
        BcsName::PushBaseOffset => with_stack(
            s,
            f.stack + args.map_values(|v: BcsValue| base_offset_value(f.pointer, v)),
        ),
        BcsName::Nargs => with_frame(
            s,
            FrameModel {
                pending: match last_int(args) {
                    Some(v) => if v >= 0 {
                        Some(v as usize)
                    } else {
                        None
                    },
                    None => None,
                },
                ..f
            },
        ),
        BcsName::Jmp => {
            let (rest, target) = pop_int(f.stack);
            jump_spec(with_stack(s, rest), target)
        },
        BcsName::Jc => {
            let (rest, target) = match last_int(args) {
                Some(t) => (f.stack, t),
                None => pop_int(f.stack),
            };
            let (rest2, condition) = pop_int(rest);
            let s2 = with_stack(s, rest2);
            if condition != 0 {
                jump_spec(s2, target)
            } else {
                s2
            }
        },
        BcsName::Call => {
            let (rest, target) = pop_int(f.stack);
            jump_spec(with_frame(s, FrameModel { stack: rest, calls: f.calls.push(f.pc), ..f }), target)
        },
        BcsName::Ret => ret_spec(s),
        BcsName::GetStackPointer | BcsName::LoadBase => with_stack(
            s,
            f.stack.push(BcsValue::MemoryAddr(f.pointer)),
        ),
        BcsName::SetStackPointer | BcsName::StoreBase => {
            let (rest, p) = pop_int(f.stack);
            with_frame(s, FrameModel { stack: rest, pointer: p, ..f })
        },
        BcsName::WriteMemCopy | BcsName::Move => {
            let (rest, value) = pop_value(f.stack);
            let (rest2, address) = pop_memory_address(rest, f.pointer);
            with_frame(
                s,
                FrameModel { stack: rest2.push(value), memory: f.memory.insert(address, value), ..f },
            )
        },
        BcsName::WriteMem | BcsName::MoveArg => {
            let (rest, address) = pop_memory_address(f.stack, f.pointer);
            let (rest2, value) = pop_value(rest);
            with_frame(s, FrameModel { stack: rest2, memory: f.memory.insert(address, value), ..f })
        },
        BcsName::ReadMem | BcsName::Load => {
            let (rest, address) = pop_memory_address(f.stack, f.pointer);
            let value = if f.memory.contains_key(address) {
                f.memory[address]
            } else {
                BcsValue::Int(0)
            };
            with_stack(s, rest.push(value))
        },
        BcsName::GlobalSet => {
            let (rest, taken) = take_args(f.stack, f.pending);
            let (rest2, index, value) = if taken.len() >= 2 {
                (
                    rest,
                    match value_int(taken[taken.len() - 2]) {
                        Some(i) => i,
                        None => 0,
                    },
                    taken.last(),
                )
            } else {
                let (r1, v) = pop_value(rest);
                let (r2, i) = pop_int(r1);
                (r2, i, v)
            };
            VmModel {
                frame: FrameModel { stack: rest2, pending: None, ..f },
                globals: s.globals.insert(index, value),
                ..s
            }
        },
        BcsName::GlobalGet => {
            let (rest, taken) = take_args(f.stack, f.pending);
            let given = if taken.len() > 0 {
                value_int(taken.last())
            } else {
                None
            };
            let (rest2, index) = match given {
                Some(i) => (rest, i),
                None => pop_int(rest),
            };
            let value = if s.globals.contains_key(index) {
                s.globals[index]
            } else {
                BcsValue::Int(0)
            };
            with_frame(s, FrameModel { stack: rest2.push(value), pending: None, ..f })
        },
        BcsName::Not | BcsName::BoolZero => {
            let (rest, v) = pop_int(f.stack);
            let r: i32 = if name == BcsName::Not {
                !v
            } else if v == 0 {
                1
            } else {
                0
            };
            with_stack(s, rest.push(BcsValue::Int(r)))
        },
        BcsName::Ternary => {
            let (r1, when_false) = pop_value(f.stack);
            let (r2, when_true) = pop_value(r1);
            let (r3, condition) = pop_int(r2);
            with_stack(
                s,
                r3.push(
                    if condition != 0 {
                        when_true
                    } else {
                        when_false
                    },
                ),
            )
        },
        BcsName::Sin | BcsName::Cos => {
            let (rest, angle) = pop_int(f.stack);
            VmModel {
                frame: FrameModel { stack: rest, ..f },
                trig: Some(
                    (
                        if name == BcsName::Sin {
                            TrigFunction::Sin
                        } else {
                            TrigFunction::Cos
                        },
                        angle,
                    ),
                ),
                ..s
            }
        },
        BcsName::SourceLine | BcsName::Cmd0xe3 | BcsName::Cmd0xe2 | BcsName::EndIf => {
            let (rest, taken) = take_args(f.stack, f.pending);
            with_frame(s, FrameModel { stack: rest, pending: None, ..f })
        },
        BcsName::CheckTranslatorNote => {
            let (rest, taken) = take_args(f.stack, f.pending);
            with_frame(s, FrameModel { stack: rest.push(BcsValue::Int(0)), pending: None, ..f })
        },
        BcsName::RegExceptionHandler => with_stack(s, pop_int(f.stack).0),
        BcsName::UnregExceptionHandler => s,
        BcsName::ResolveSymbol => resolve_spec(s),
        _ => if is_binary(name) {
            let (r1, right) = pop_int(f.stack);
            let (r2, left) = pop_int(r1);
            with_stack(s, r2.push(BcsValue::Int(binary_spec(name, left, right))))
        } else if is_comparison(name) {
            let (r1, right) = pop_int(f.stack);
            let (r2, left) = pop_int(r1);
            with_stack(
                s,
                r2.push(
                    BcsValue::Int(
                        if comparison_spec(name, left, right) {
                            1
                        } else {
                            0
                        },
                    ),
                ),
            )
        } else if opcode == 0xe5 {
            let (rest, taken) = take_args(f.stack, f.pending);
            VmModel {
                frame: FrameModel {
                    stack: rest.push(
                        BcsValue::Int(
                            if s.wait_return_ready {
                                1
                            } else {
                                0
                            },
                        ),
                    ),
                    pending: None,
                    ..f
                },
                wait_return_ready: false,
                ..s
            }
        } else {
            engine_command_spec(s, opcode, name)
        },
    }
}

/// Loading the script that playback waits for: with no transfer waiting,
/// or a script without instructions, or a target label it lacks, nothing
/// is loaded and `None` comes back (the wait is dropped in all but the
/// first case). Otherwise the script runs fresh from its start or its
/// label; a call keeps the current program to return to; the script is no
/// longer finished; the script's instruction count comes back.
pub open spec fn append_spec(s: VmModel, commands: Seq<BcsCommand>, symbols: Seq<BcsSymbol>) -> (
    VmModel,
    Option<usize>,
) {
    match s.awaiting {
        None => (s, None),
        Some(p) => {
            let s1 = VmModel { awaiting: None, ..s };
            if commands.len() == 0 {
                (s1, None)
            } else {
                let map = index_map(commands);
                let start: Option<usize> = match p.symbol {
                    None => Some(0usize),
                    Some(name) => match find_symbol(symbols, name@) {
                        None => None,
                        Some(a) => if map.contains_key(a) {
                            Some(map[a])
                        } else {
                            None
                        },
                    },
                };
                match start {
                    None => (s1, None),
                    Some(pc) => (
                        VmModel {
                            frame: fresh_frame(commands, symbols, pc),
                            external: if p.transfer == ScriptTransfer::Call {
                                s.external.push(s.frame)
                            } else {
                                s.external
                            },
                            completed: false,
                            ..s1
                        },
                        Some(commands.len() as usize),
                    ),
                }
            }
        },
    }
}

/// The instructions one frame may run before playback yields regardless.
pub open spec fn frame_budget() -> nat {
    2048
}

/// The state with the first ready action taken out.
pub open spec fn take_action(s: VmModel) -> VmModel {
    VmModel { builder: BuilderModel { actions: s.builder.actions.drop_first(), ..s.builder }, ..s }
}

/// One frame of playback from `s`, with `fuel` steps left: the state it
/// leaves, the action it hands out, and whether the input advance was
/// used.
///
/// Each step: a pending trigonometric request holds playback; waiting for
/// input ends the frame unless input advances, which resumes and marks a
/// wait result; a frame wait counts down one frame and ends the frame; a
/// finished script ends the frame; a ready action is handed out (a wait
/// sets the frame wait, a wait for input passes on input or starts
/// waiting); otherwise the next instruction runs, and running past the
/// last one finishes the script.
pub open spec fn tick_spec(s: VmModel, input: bool, consumed: bool, fuel: nat) -> (
    VmModel,
    Option<ActionModel>,
    bool,
)
    decreases fuel,
{
    if fuel == 0 {
        (s, None, consumed)
    } else if s.trig is Some {
        (s, None, consumed)
    } else if s.waiting_for_input && !input {
        (s, None, consumed)
    } else {
        let (s1, c1) = if s.waiting_for_input {
            (VmModel { waiting_for_input: false, wait_return_ready: true, ..s }, true)
        } else {
            (s, consumed)
        };
        if s1.wait_frames > 0 {
            (VmModel { wait_frames: (s1.wait_frames - 1) as u32, ..s1 }, None, c1)
        } else if s1.completed {
            (s1, None, c1)
        } else if s1.builder.actions.len() > 0 {
            let a = s1.builder.actions[0];
            let s2 = take_action(s1);
            match a {
                ActionModel::Wait { frames } => (VmModel { wait_frames: frames, ..s2 }, None, c1),
                ActionModel::WaitForInput => if input {
                    tick_spec(s2, input, true, (fuel - 1) as nat)
                } else {
                    (VmModel { waiting_for_input: true, ..s2 }, None, c1)
                },
                _ => (s2, Some(a), c1),
            }
        } else if s1.frame.pc >= s1.frame.commands.len() {
            (VmModel { completed: true, ..s1 }, None, c1)
        } else {
            let cmd = s1.frame.commands[s1.frame.pc as int];
            let s2 = with_frame(s1, FrameModel { pc: (s1.frame.pc + 1) as usize, ..s1.frame });
            tick_spec(execute_spec(s2, cmd.opcode, cmd.name, cmd.args@), input, c1, (fuel - 1) as nat)
        }
    }
}

/// The address index sends each address that some instruction has to the
/// last instruction with that address, and no other address anywhere.
pub proof fn law_index_map_finds_instructions(commands: Seq<BcsCommand>, a: u32)
    requires
        commands.len() <= usize::MAX,
    ensures
        index_map(commands).contains_key(a) <==> exists|i: int|
            0 <= i < commands.len() && #[trigger] commands[i].addr == a,
        index_map(commands).contains_key(a) ==> {
            let i = index_map(commands)[a] as int;
            &&& 0 <= i < commands.len()
            &&& commands[i].addr == a
            &&& forall|j: int| i < j < commands.len() ==> #[trigger] commands[j].addr != a
        },
    decreases commands.len(),
{
    if commands.len() > 0 {
        let rest = commands.drop_last();
        law_index_map_finds_instructions(rest, a);
        if commands.last().addr != a {
            assert forall|i: int|
                0 <= i < commands.len() && #[trigger] commands[i].addr == a implies 0 <= i
                < rest.len() && rest[i].addr == a by {}
            if index_map(rest).contains_key(a) {
                let k = choose|i: int| 0 <= i < rest.len() && #[trigger] rest[i].addr == a;
                assert(commands[k].addr == a);
                let i = index_map(rest)[a] as int;
                assert(commands[i] == rest[i]);
                assert forall|j: int| i < j < commands.len() implies #[trigger] commands[j].addr != a by {
                    if j < rest.len() {
                        assert(commands[j] == rest[j]);
                    }
                }
            }
        } else {
            assert(commands[commands.len() - 1].addr == a);
        }
    }
}

/// A jump lands on an instruction at the target address when the program
/// has one, and otherwise ends the script.
pub proof fn law_jump_lands_on_target(s: VmModel, target: i32)
    requires
        s.frame.commands.len() <= usize::MAX,
    ensures
        (exists|i: int| 0 <= i < s.frame.commands.len() && #[trigger] s.frame.commands[i].addr
            == target as u32) ==> {
            let t = jump_spec(s, target);
            &&& t.frame.pc < s.frame.commands.len()
            &&& s.frame.commands[t.frame.pc as int].addr == target as u32
            &&& !t.completed || s.completed
        },
        !(exists|i: int| 0 <= i < s.frame.commands.len() && #[trigger] s.frame.commands[i].addr
            == target as u32) ==> jump_spec(s, target).completed,
{
    law_index_map_finds_instructions(s.frame.commands, target as u32);
}

/// After a script is loaded by a call, a `ret` with no return address left
/// in it goes back to the calling program exactly as it was.
pub proof fn law_call_return_restores_caller(
    s: VmModel,
    commands: Seq<BcsCommand>,
    symbols: Seq<BcsSymbol>,
    t: VmModel,
)
    requires
        s.awaiting matches Some(p) && p.transfer == ScriptTransfer::Call,
        append_spec(s, commands, symbols).1 is Some,
        t.external == append_spec(s, commands, symbols).0.external,
        t.frame.calls.len() == 0,
    ensures
        ret_spec(t).frame == s.frame,
        ret_spec(t).external == s.external,
{
    assert(t.external.last() == s.frame);
    assert(t.external.drop_last() =~= s.external);
}

/// A global set with the index and the value on the stack (no argument
/// count pending), then a global get of that index, leaves the stack as it
/// was with the value on top.
pub proof fn law_global_set_then_get(s: VmModel, index: i32, value: BcsValue, opcode: u32)
    requires
        s.frame.pending is None,
    ensures
        ({
            let set = execute_spec(
                with_stack(s, s.frame.stack.push(BcsValue::Int(index)).push(value)),
                opcode,
                BcsName::GlobalSet,
                Seq::empty(),
            );
            let get = execute_spec(
                with_stack(set, set.frame.stack.push(BcsValue::Int(index))),
                opcode,
                BcsName::GlobalGet,
                Seq::empty(),
            );
            get.frame.stack == s.frame.stack.push(value) && get.globals == s.globals.insert(
                index,
                value,
            )
        }),
{
    let st = s.frame.stack.push(BcsValue::Int(index)).push(value);
    assert(st.drop_last().drop_last() =~= s.frame.stack);
    let set = execute_spec(with_stack(s, st), opcode, BcsName::GlobalSet, Seq::empty());
    assert(set.frame.stack =~= s.frame.stack);
    let st2 = set.frame.stack.push(BcsValue::Int(index));
    assert(st2.drop_last() =~= s.frame.stack);
}

/// A frame-memory write of a value to an address, then a read of that
/// address, gives the value back and leaves the stack as it was.
pub proof fn law_memory_write_then_read(s: VmModel, address: i32, value: BcsValue, opcode: u32)
    ensures
        ({
            let written = execute_spec(
                with_stack(s, s.frame.stack.push(value).push(BcsValue::MemoryAddr(address))),
                opcode,
                BcsName::WriteMem,
                Seq::empty(),
            );
            let read = execute_spec(
                with_stack(written, written.frame.stack.push(BcsValue::MemoryAddr(address))),
                opcode,
                BcsName::ReadMem,
                Seq::empty(),
            );
            read.frame.stack == s.frame.stack.push(value)
        }),
{
    let st = s.frame.stack.push(value).push(BcsValue::MemoryAddr(address));
    assert(st.drop_last().drop_last() =~= s.frame.stack);
    let written = execute_spec(with_stack(s, st), opcode, BcsName::WriteMem, Seq::empty());
    assert(written.frame.stack =~= s.frame.stack);
    let st2 = written.frame.stack.push(BcsValue::MemoryAddr(address));
    assert(st2.drop_last() =~= s.frame.stack);
}

/// Playback that waits for input stays exactly where it is, handing out
/// nothing, until input advances.
pub proof fn law_waiting_holds_without_input(s: VmModel, consumed: bool, fuel: nat)
    requires
        s.waiting_for_input,
    ensures
        tick_spec(s, false, consumed, fuel) == (s, None::<ActionModel>, consumed),
{
}

/// A finished script stays finished and hands out nothing more.
pub proof fn law_finished_script_stays_finished(s: VmModel, input: bool, consumed: bool, fuel: nat)
    requires
        s.completed,
    ensures
        tick_spec(s, input, consumed, fuel).0.completed,
        tick_spec(s, input, consumed, fuel).1 is None,
{
}

/// The script's comparisons take the two integers on top of the stack, the
/// left operand pushed first, and push 1 when the signed relation holds
/// and 0 otherwise: `lt` is strict and `leq` is not, `gt` is strict and
/// `geq` is not, `eq` and `neq` test equality.
pub proof fn law_comparisons_push_the_integer_relation(s: VmModel, opcode: u32, l: i32, r: i32)
    ensures
        ({
            let st = with_stack(s, s.frame.stack.push(BcsValue::Int(l)).push(BcsValue::Int(r)));
            let after = |name: BcsName| execute_spec(st, opcode, name, Seq::empty()).frame.stack;
            let bit = |b: bool| BcsValue::Int(if b { 1 } else { 0 });
            &&& after(BcsName::Lt) == s.frame.stack.push(bit(l < r))
            &&& after(BcsName::Leq) == s.frame.stack.push(bit(l <= r))
            &&& after(BcsName::Gt) == s.frame.stack.push(bit(l > r))
            &&& after(BcsName::Geq) == s.frame.stack.push(bit(l >= r))
            &&& after(BcsName::Eq) == s.frame.stack.push(bit(l == r))
            &&& after(BcsName::Neq) == s.frame.stack.push(bit(l != r))
        }),
{
    let st = s.frame.stack.push(BcsValue::Int(l)).push(BcsValue::Int(r));
    assert(st.drop_last().drop_last() =~= s.frame.stack);
    assert(st.drop_last().last() == BcsValue::Int(l));
}

} // verus!
