use vstd::prelude::*;
use std::collections::{BTreeMap, HashMap};
use crate::bcs::{
    BcsCommand,
    BcsName,
    BcsProgram,
    BcsSymbol,
    BcsValue,
    ints,
    strings,
    strings_of,
    value_i32,
};
use crate::scenario::looks_like_script_name;
use crate::scenario_action::{
    ActionModel,
    ScenarioAction,
    ScriptTransfer,
    StrKind,
    opt_chars,
    str_is_kind,
};
use crate::scenario_builder::{BuilderModel, ScenarioActionBuilder};
use crate::scenario_vm::{
    FrameModel,
    PendingExternalScript,
    ResolvedSymbol,
    StackMark,
    TrigFunction,
    VmModel,
    base_offset_value,
    binary_spec,
    call_context,
    comparison_spec,
    execute_spec,
    find_symbol,
    external_script_spec,
    first_of_kind,
    fresh_frame,
    index_map,
    is_binary,
    is_comparison,
    jump_spec,
    last_int,
    offset_value,
    request_script_spec,
    resolve_spec,
    trunc_div,
    trunc_rem,
    append_spec,
    frame_budget,
    tick_spec,
    with_stack,
    jump_context,
    last_mark,
    pop_int,
    pop_memory_address,
    pop_value,
    take_args,
};

verus! {

broadcast use vstd::std_specs::hash::group_hash_axioms;

/// The frame memory of one program: the frame pointer and the values
/// stored by address.
#[derive(Debug)]
pub struct BcsMemory {
    pub pointer: i32,
    pub values: BTreeMap<i32, BcsValue>,
}

impl BcsMemory {
    /// The value stored at `address`; `Int(0)` where nothing was stored.
    pub fn read(&self, address: i32) -> (out: BcsValue)
        ensures
            out == (if self.values@.contains_key(address) {
                self.values@[address]
            } else {
                BcsValue::Int(0)
            }),
    {
        broadcast use vstd::std_specs::btree::group_btree_axioms, vstd::laws_cmp::group_laws_cmp;

        match self.values.get(&address) {
            Some(v) => v.duplicate(),
            None => BcsValue::Int(0),
        }
    }

    /// Stores `value` at `address`.
    pub fn write(&mut self, address: i32, value: BcsValue)
        ensures
            final(self).values@ == old(self).values@.insert(address, value),
            final(self).pointer == old(self).pointer,
    {
        broadcast use vstd::std_specs::btree::group_btree_axioms, vstd::laws_cmp::group_laws_cmp;

        self.values.insert(address, value);
    }
}

/// A program that called into another script, kept until that script
/// returns.
#[derive(Debug)]
pub struct ExternalBcsFrame {
    program: BcsProgram,
    address_to_pc: HashMap<u32, usize>,
    pc: usize,
    operand_stack: Vec<BcsValue>,
    memory: BcsMemory,
    call_stack: Vec<usize>,
    pending_arg_count: Option<usize>,
    resolved_symbol: Option<ResolvedSymbol>,
}

impl ExternalBcsFrame {
    pub closed spec fn model(&self) -> FrameModel {
        FrameModel {
            commands: self.program.commands@,
            symbols: self.program.symbols@,
            pc: self.pc,
            stack: self.operand_stack@,
            pointer: self.memory.pointer,
            memory: self.memory.values@,
            calls: self.call_stack@,
            pending: self.pending_arg_count,
            resolved: self.resolved_symbol,
        }
    }

    pub closed spec fn wf(&self) -> bool {
        self.address_to_pc@ == index_map(self.program.commands@)
    }
}

/// Plays a decoded BURIKO script one frame at a time, turning the engine
/// commands it invokes into [`ScenarioAction`]s.
#[derive(Debug)]
pub struct ScenarioPlayback {
    program: BcsProgram,
    address_to_pc: HashMap<u32, usize>,
    pc: usize,
    operand_stack: Vec<BcsValue>,
    memory: BcsMemory,
    globals: BTreeMap<i32, BcsValue>,
    call_stack: Vec<usize>,
    pending_arg_count: Option<usize>,
    resolved_symbol: Option<ResolvedSymbol>,
    decoder: ScenarioActionBuilder,
    wait_frames: u32,
    waiting_for_input: bool,
    completed: bool,
    wait_return_ready: bool,
    awaiting_external_script: Option<PendingExternalScript>,
    external_call_stack: Vec<ExternalBcsFrame>,
    trig_request: Option<(TrigFunction, i32)>,
}

impl View for ScenarioPlayback {
    type V = VmModel;

    closed spec fn view(&self) -> VmModel {
        VmModel {
            frame: FrameModel {
                commands: self.program.commands@,
                symbols: self.program.symbols@,
                pc: self.pc,
                stack: self.operand_stack@,
                pointer: self.memory.pointer,
                memory: self.memory.values@,
                calls: self.call_stack@,
                pending: self.pending_arg_count,
                resolved: self.resolved_symbol,
            },
            external: self.external_call_stack@.map_values(|f: ExternalBcsFrame| f.model()),
            globals: self.globals@,
            builder: self.decoder@,
            wait_frames: self.wait_frames,
            waiting_for_input: self.waiting_for_input,
            completed: self.completed,
            wait_return_ready: self.wait_return_ready,
            awaiting: self.awaiting_external_script,
            trig: self.trig_request,
        }
    }
}

/// Pops a value; an empty stack gives `Int(0)`.
pub fn pop_stack_value(stack: &mut Vec<BcsValue>) -> (v: BcsValue)
    ensures
        (final(stack)@, v) == pop_value(old(stack)@),
{
    match stack.pop() {
        Some(v) => v,
        None => BcsValue::Int(0),
    }
}

/// Pops an integer; an empty stack or a value that is no integer gives 0.
pub fn pop_i32(stack: &mut Vec<BcsValue>) -> (v: i32)
    ensures
        (final(stack)@, v) == pop_int(old(stack)@),
{
    match stack.pop() {
        Some(v) => match value_i32(&v) {
            Some(x) => x,
            None => 0,
        },
        None => 0,
    }
}

/// Pops a frame-memory address (see [`pop_memory_address`]).
pub fn pop_stack_memory_address(stack: &mut Vec<BcsValue>, pointer: i32) -> (v: i32)
    ensures
        (final(stack)@, v) == pop_memory_address(old(stack)@, pointer),
{
    match stack.pop() {
        Some(BcsValue::MemoryAddr(a)) => a,
        Some(BcsValue::BaseOffset(o)) => pointer.wrapping_sub(o),
        Some(v) => match value_i32(&v) {
            Some(x) => x,
            None => 0,
        },
        None => 0,
    }
}

/// Splits off the pending arguments (see [`take_args`]).
pub fn take_pending_args(stack: &mut Vec<BcsValue>, pending: Option<usize>) -> (out: Vec<BcsValue>)
    ensures
        (final(stack)@, out@) == take_args(old(stack)@, pending),
{
    match pending {
        None => Vec::new(),
        Some(count) => {
            let split = if stack.len() >= count {
                stack.len() - count
            } else {
                0
            };
            let out = stack.split_off(split);
            assert(stack@ =~= old(stack)@.take(split as int));
            assert(out@ =~= old(stack)@.skip(split as int));
            out
        },
    }
}

/// The index of the last value with the mark (see [`last_mark`]).
pub fn last_marked(stack: &Vec<BcsValue>, upto: usize, mark: StackMark) -> (out: Option<usize>)
    requires
        upto <= stack@.len(),
    ensures
        match out {
            Some(i) => last_mark(stack@.take(upto as int), mark) == Some(i as int) && i < upto,
            None => last_mark(stack@.take(upto as int), mark) is None,
        },
{
    let mut i: usize = upto;
    while i > 0
        invariant
            i <= upto <= stack@.len(),
            last_mark(stack@.take(upto as int), mark) == last_mark(stack@.take(i as int), mark),
        decreases i,
    {
        let hit = match &stack[i - 1] {
            BcsValue::Str(t) => match mark {
                StackMark::Function => crate::text::vec_starts_with(
                    &crate::text::chars_of(t.as_str()),
                    &crate::text::one_char('_'),
                ),
                StackMark::SourceFile => crate::text::vec_ends_with(
                    &crate::text::chars_of(t.as_str()),
                    &vec!['.', 't', 'x', 't'],
                ),
                StackMark::Script => looks_like_script_name(t.as_str()),
            },
            _ => false,
        };
        assert(stack@.take(i as int).last() == stack@[i - 1]);
        if hit {
            return Some(i - 1);
        }
        assert(stack@.take(i as int).drop_last() =~= stack@.take(i as int - 1));
        i -= 1;
    }
    None
}

/// Splits off a library call's operands (see [`call_context`]).
pub fn take_script_call_context(stack: &mut Vec<BcsValue>) -> (out: Vec<BcsValue>)
    ensures
        (final(stack)@, out@) == call_context(old(stack)@),
{
    let n = stack.len();
    assert(stack@.take(n as int) =~= stack@);
    let fi = match last_marked(stack, n, StackMark::Function) {
        Some(fi) => fi,
        None => return Vec::new(),
    };
    assert(stack@.take(fi as int) =~= stack@.take(fi as int).take(fi as int));
    let start = match last_marked(stack, fi, StackMark::SourceFile) {
        Some(j) => if j + 2 <= fi {
            j + 2
        } else {
            fi
        },
        None => if fi >= 40 {
            fi - 40
        } else {
            0
        },
    };
    let out = stack.split_off(start);
    assert(stack@ =~= old(stack)@.take(start as int));
    assert(out@ =~= old(stack)@.skip(start as int));
    out
}

/// Splits off a script transfer's operands (see [`jump_context`]).
pub fn take_script_jump_context(stack: &mut Vec<BcsValue>, pending: Option<usize>) -> (out: Vec<BcsValue>)
    ensures
        (final(stack)@, out@) == jump_context(old(stack)@, pending),
{
    if pending.is_some() {
        return take_pending_args(stack, pending);
    }
    let n = stack.len();
    assert(stack@.take(n as int) =~= stack@);
    match last_marked(stack, n, StackMark::Script) {
        None => Vec::new(),
        Some(i) => if n - i > 4 {
            Vec::new()
        } else {
            let out = stack.split_off(i);
            assert(stack@ =~= old(stack)@.take(i as int));
            assert(out@ =~= old(stack)@.skip(i as int));
            out
        },
    }
}

/// A copy of a list of operands.
pub fn duplicate_values(values: &Vec<BcsValue>) -> (out: Vec<BcsValue>)
    ensures
        out@ == values@,
{
    let mut out: Vec<BcsValue> = Vec::new();
    let mut i: usize = 0;
    while i < values.len()
        invariant
            i <= values@.len(),
            out@ == values@.take(i as int),
        decreases values@.len() - i,
    {
        out.push(values[i].duplicate());
        assert(out@ =~= values@.take(i as int + 1));
        i += 1;
    }
    assert(values@.take(values@.len() as int) =~= values@);
    out
}

/// The instruction index of each address (see [`index_map`]).
pub fn address_index(commands: &Vec<BcsCommand>) -> (out: HashMap<u32, usize>)
    ensures
        out@ == index_map(commands@),
{
    let mut map: HashMap<u32, usize> = HashMap::new();
    let mut i: usize = 0;
    assert(commands@.take(0) =~= Seq::<BcsCommand>::empty());
    while i < commands.len()
        invariant
            i <= commands@.len(),
            map@ == index_map(commands@.take(i as int)),
        decreases commands@.len() - i,
    {
        map.insert(commands[i].addr, i);
        assert(commands@.take(i as int + 1).drop_last() =~= commands@.take(i as int));
        i += 1;
    }
    assert(commands@.take(commands@.len() as int) =~= commands@);
    map
}

/// A player that has just started `commands` at their first instruction.
pub open spec fn initial_spec(commands: Seq<BcsCommand>, symbols: Seq<BcsSymbol>) -> VmModel {
    VmModel {
        frame: fresh_frame(commands, symbols, 0),
        external: Seq::empty(),
        globals: Map::empty(),
        builder: BuilderModel {
            actions: Seq::empty(),
            scheduled: Seq::empty(),
            characters: Map::empty(),
        },
        wait_frames: 0,
        waiting_for_input: false,
        completed: false,
        wait_return_ready: false,
        awaiting: None,
        trig: None,
    }
}

/// The last integer of the operands (see [`last_int`]).
pub fn last_int_of(args: &[BcsValue]) -> (out: Option<i32>)
    ensures
        out == last_int(args@),
{
    let all = ints(args);
    if all.len() == 0 {
        None
    } else {
        Some(all[all.len() - 1])
    }
}

/// Truncating division; the caller keeps the divisor non-zero.
fn divide(left: i32, right: i32) -> (out: i32)
    requires
        right != 0,
    ensures
        out == trunc_div(left as int, right as int) as i32,
{
    let a: i64 = if left < 0 {
        -(left as i64)
    } else {
        left as i64
    };
    let b: i64 = if right < 0 {
        -(right as i64)
    } else {
        right as i64
    };
    let q: i64 = a / b;
    assert(0 <= q <= a) by (nonlinear_arith)
        requires
            0 <= a,
            1 <= b,
            q == a / b,
    ;
    let r: i64 = if (left < 0) != (right < 0) {
        -q
    } else {
        q
    };
    r as i32
}

/// Truncating remainder; the caller keeps the divisor non-zero.
fn remainder(left: i32, right: i32) -> (out: i32)
    requires
        right != 0,
    ensures
        out == trunc_rem(left as int, right as int) as i32,
{
    let a: i64 = if left < 0 {
        -(left as i64)
    } else {
        left as i64
    };
    let b: i64 = if right < 0 {
        -(right as i64)
    } else {
        right as i64
    };
    let r: i64 = a % b;
    let out: i64 = if left < 0 {
        -r
    } else {
        r
    };
    out as i32
}

/// Integer arithmetic of the script machine (see [`binary_spec`]).
pub fn execute_binary_operator(name: BcsName, left: i32, right: i32) -> (out: i32)
    ensures
        out == binary_spec(name, left, right),
{
    match name {
        BcsName::Add => left.wrapping_add(right),
        BcsName::Sub => left.wrapping_sub(right),
        BcsName::Mul => left.wrapping_mul(right),
        BcsName::Div => if right == 0 {
            0
        } else {
            divide(left, right)
        },
        BcsName::Mod => if right == 0 {
            0
        } else {
            remainder(left, right)
        },
        BcsName::And => left & right,
        BcsName::Or => left | right,
        BcsName::Xor => left ^ right,
        BcsName::Shl | BcsName::Shr | BcsName::Sar => {
            let r = right as u32;
            let sh = r & 31;
            assert(r & 31 <= 31) by (bit_vector);
            if name == BcsName::Shl {
                ((left as u32) << sh) as i32
            } else if name == BcsName::Shr {
                ((left as u32) >> sh) as i32
            } else {
                left >> sh
            }
        },
        _ => 0,
    }
}

/// Comparisons and connectives of the script machine (see
/// [`comparison_spec`]).
pub fn execute_comparison(name: BcsName, left: i32, right: i32) -> (out: bool)
    ensures
        out == comparison_spec(name, left, right),
{
    match name {
        BcsName::Eq => left == right,
        BcsName::Neq => left != right,
        BcsName::Leq => left <= right,
        BcsName::Geq => left >= right,
        BcsName::Lt => left < right,
        BcsName::Gt => left > right,
        BcsName::BoolAnd => left != 0 && right != 0,
        BcsName::BoolOr => left != 0 || right != 0,
        _ => false,
    }
}

impl ScenarioPlayback {
    /// The player's invariant: each program's address index matches its
    /// instructions.
    pub closed spec fn wf(&self) -> bool {
        &&& self.address_to_pc@ == index_map(self.program.commands@)
        &&& forall|i: int|
            0 <= i < self.external_call_stack@.len() ==> (#[trigger] self.external_call_stack@[i]).wf()
    }

    /// A player for a decoded program; none for a program with no
    /// instructions.
    pub fn from_program(program: BcsProgram) -> (out: Option<Self>)
        ensures
            out is None <==> program.commands@.len() == 0,
            out matches Some(p) ==> p.wf() && p@ == initial_spec(
                program.commands@,
                program.symbols@,
            ),
    {
        if program.commands.len() == 0 {
            return None;
        }
        let address_to_pc = address_index(&program.commands);
        let p = ScenarioPlayback {
            program,
            address_to_pc,
            pc: 0,
            operand_stack: Vec::new(),
            memory: BcsMemory { pointer: 0, values: BTreeMap::new() },
            globals: BTreeMap::new(),
            call_stack: Vec::new(),
            pending_arg_count: None,
            resolved_symbol: None,
            decoder: ScenarioActionBuilder::new(),
            wait_frames: 0,
            waiting_for_input: false,
            completed: false,
            wait_return_ready: false,
            awaiting_external_script: None,
            external_call_stack: Vec::new(),
            trig_request: None,
        };
        assert(p@.external =~= Seq::<FrameModel>::empty());
        assert(p@.builder.actions =~= Seq::<ActionModel>::empty());
        assert(p@.builder.scheduled =~= Seq::<ActionModel>::empty());
        Some(p)
    }

    /// The number of instructions of the running program.
    pub fn instruction_count(&self) -> (out: usize)
        ensures
            out == self@.frame.commands.len(),
    {
        self.program.commands.len()
    }

    /// Whether playback waits for the player to advance.
    pub fn is_waiting_for_input(&self) -> (out: bool)
        ensures
            out == self@.waiting_for_input,
    {
        self.waiting_for_input
    }

    /// Whether the script has finished.
    pub fn is_completed(&self) -> (out: bool)
        ensures
            out == self@.completed,
    {
        self.completed
    }

    /// The number of values on the operand stack.
    pub fn operand_stack_len(&self) -> (out: usize)
        ensures
            out == self@.frame.stack.len(),
    {
        self.operand_stack.len()
    }

    /// The argument count the next consumer will take, if one is pending.
    pub fn pending_arg_count(&self) -> (out: Option<usize>)
        ensures
            out == self@.frame.pending,
    {
        self.pending_arg_count
    }

    /// The global at `index`, if it was set.
    pub fn global(&self, index: i32) -> (out: Option<BcsValue>)
        ensures
            match out {
                Some(v) => self@.globals.contains_key(index) && v == self@.globals[index],
                None => !self@.globals.contains_key(index),
            },
    {
        broadcast use vstd::std_specs::btree::group_btree_axioms, vstd::laws_cmp::group_laws_cmp;

        match self.globals.get(&index) {
            Some(v) => Some(v.duplicate()),
            None => None,
        }
    }

    /// The trigonometric evaluation playback waits for, if any.
    pub fn trig_request(&self) -> (out: Option<(TrigFunction, i32)>)
        ensures
            out == self@.trig,
    {
        self.trig_request
    }

    /// Drops a script transfer that the host could not serve.
    pub fn cancel_external_script(&mut self)
        requires
            old(self).wf(),
        ensures
            final(self).wf(),
            final(self)@ == (VmModel { awaiting: None, ..old(self)@ }),
    {
        self.awaiting_external_script = None;
    }

    fn jump_to(&mut self, address: i32)
        requires
            old(self).wf(),
        ensures
            final(self).wf(),
            final(self)@ == jump_spec(old(self)@, address),
    {
        let a = address as u32;
        match self.address_to_pc.get(&a) {
            Some(pc) => {
                self.pc = *pc;
            },
            None => {
                self.completed = true;
            },
        }
    }

    fn jump_to_stack_address(&mut self)
        requires
            old(self).wf(),
        ensures
            final(self).wf(),
            final(self)@ == jump_spec(
                with_stack(old(self)@, pop_int(old(self)@.frame.stack).0),
                pop_int(old(self)@.frame.stack).1,
            ),
    {
        let target = pop_i32(&mut self.operand_stack);
        self.jump_to(target);
    }

    fn exec_push(&mut self, opcode: u32, name: BcsName, args: &Vec<BcsValue>)
        requires
            old(self).wf(),
            name == BcsName::PushDword || name == BcsName::PushString || name == BcsName::PushOffset
                || name == BcsName::PushBaseOffset || name == BcsName::Nargs,
        ensures
            final(self).wf(),
            final(self)@ == execute_spec(old(self)@, opcode, name, args@),
    {
        match name {
            BcsName::Nargs => {
                self.pending_arg_count = match last_int_of(args.as_slice()) {
                    Some(v) => if v >= 0 {
                        Some(v as usize)
                    } else {
                        None
                    },
                    None => None,
                };
            },
            BcsName::PushOffset => {
                let resolved = self.resolved_symbol.take();
                push_offsets(&mut self.operand_stack, &resolved, args);
            },
            BcsName::PushBaseOffset => {
                push_base_offsets(&mut self.operand_stack, self.memory.pointer, args);
            },
            _ => {
                push_all(&mut self.operand_stack, args);
            },
        }
    }

    fn exec_control(&mut self, opcode: u32, name: BcsName, args: &Vec<BcsValue>)
        requires
            old(self).wf(),
            name == BcsName::Jmp || name == BcsName::Jc || name == BcsName::Call || name == BcsName::Ret,
        ensures
            final(self).wf(),
            final(self)@ == execute_spec(old(self)@, opcode, name, args@),
    {
        match name {
            BcsName::Jmp => self.jump_to_stack_address(),
            BcsName::Jc => {
                let target = match last_int_of(args.as_slice()) {
                    Some(t) => t,
                    None => pop_i32(&mut self.operand_stack),
                };
                let condition = pop_i32(&mut self.operand_stack);
                if condition != 0 {
                    self.jump_to(target);
                }
            },
            BcsName::Call => {
                let target = pop_i32(&mut self.operand_stack);
                self.call_stack.push(self.pc);
                self.jump_to(target);
            },
            _ => {
                if self.call_stack.len() > 0 {
                    let back = self.call_stack.pop().unwrap();
                    self.pc = back;
                } else if self.external_call_stack.len() > 0 {
                    let ghost frames = self.external_call_stack@;
                    let frame = self.external_call_stack.pop().unwrap();
                    assert(frames.last() == frame);
                    assert(self.external_call_stack@ =~= frames.drop_last());
                    self.program = frame.program;
                    self.address_to_pc = frame.address_to_pc;
                    self.pc = frame.pc;
                    self.operand_stack = frame.operand_stack;
                    self.memory = frame.memory;
                    self.call_stack = frame.call_stack;
                    self.pending_arg_count = frame.pending_arg_count;
                    self.resolved_symbol = frame.resolved_symbol;
                    assert(self.wf()) by {
                        assert(frames[frames.len() - 1].wf());
                    }
                    assert(self@.external =~= old(self)@.external.drop_last());
                } else {
                    self.completed = true;
                }
            },
        }
    }

    fn exec_memory(&mut self, opcode: u32, name: BcsName, args: &Vec<BcsValue>)
        requires
            old(self).wf(),
            name == BcsName::GetStackPointer || name == BcsName::LoadBase || name
                == BcsName::SetStackPointer || name == BcsName::StoreBase || name
                == BcsName::WriteMemCopy || name == BcsName::Move || name == BcsName::WriteMem
                || name == BcsName::MoveArg || name == BcsName::ReadMem || name == BcsName::Load,
        ensures
            final(self).wf(),
            final(self)@ == execute_spec(old(self)@, opcode, name, args@),
    {
        broadcast use vstd::std_specs::btree::group_btree_axioms, vstd::laws_cmp::group_laws_cmp;

        match name {
            BcsName::GetStackPointer | BcsName::LoadBase => {
                self.operand_stack.push(BcsValue::MemoryAddr(self.memory.pointer));
            },
            BcsName::SetStackPointer | BcsName::StoreBase => {
                self.memory.pointer = pop_i32(&mut self.operand_stack);
            },
            BcsName::WriteMemCopy | BcsName::Move => {
                let value = pop_stack_value(&mut self.operand_stack);
                let address = pop_stack_memory_address(&mut self.operand_stack, self.memory.pointer);
                self.memory.write(address, value.duplicate());
                self.operand_stack.push(value);
            },
            BcsName::WriteMem | BcsName::MoveArg => {
                let address = pop_stack_memory_address(&mut self.operand_stack, self.memory.pointer);
                let value = pop_stack_value(&mut self.operand_stack);
                self.memory.write(address, value);
            },
            _ => {
                let address = pop_stack_memory_address(&mut self.operand_stack, self.memory.pointer);
                let value = self.memory.read(address);
                self.operand_stack.push(value);
            },
        }
    }

    fn exec_globals(&mut self, opcode: u32, name: BcsName, args: &Vec<BcsValue>)
        requires
            old(self).wf(),
            name == BcsName::GlobalSet || name == BcsName::GlobalGet,
        ensures
            final(self).wf(),
            final(self)@ == execute_spec(old(self)@, opcode, name, args@),
    {
        broadcast use vstd::std_specs::btree::group_btree_axioms, vstd::laws_cmp::group_laws_cmp;

        let pending = self.pending_arg_count;
        self.pending_arg_count = None;
        let mut taken = take_pending_args(&mut self.operand_stack, pending);
        if name == BcsName::GlobalSet {
            let (index, value) = if taken.len() >= 2 {
                let value = taken.pop().unwrap();
                let index = match value_i32(&taken[taken.len() - 1]) {
                    Some(i) => i,
                    None => 0,
                };
                (index, value)
            } else {
                let value = pop_stack_value(&mut self.operand_stack);
                let index = pop_i32(&mut self.operand_stack);
                (index, value)
            };
            self.globals.insert(index, value);
        } else {
            let given = if taken.len() > 0 {
                value_i32(&taken[taken.len() - 1])
            } else {
                None
            };
            let index = match given {
                Some(i) => i,
                None => pop_i32(&mut self.operand_stack),
            };
            let value = match self.globals.get(&index) {
                Some(v) => v.duplicate(),
                None => BcsValue::Int(0),
            };
            self.operand_stack.push(value);
        }
    }

    fn exec_arithmetic(&mut self, opcode: u32, name: BcsName, args: &Vec<BcsValue>)
        requires
            old(self).wf(),
            is_binary(name) || is_comparison(name) || name == BcsName::Not || name == BcsName::BoolZero
                || name == BcsName::Ternary || name == BcsName::Sin || name == BcsName::Cos,
        ensures
            final(self).wf(),
            final(self)@ == execute_spec(old(self)@, opcode, name, args@),
    {
        match name {
            BcsName::Not | BcsName::BoolZero => {
                let v = pop_i32(&mut self.operand_stack);
                let r: i32 = if name == BcsName::Not {
                    !v
                } else if v == 0 {
                    1
                } else {
                    0
                };
                self.operand_stack.push(BcsValue::Int(r));
            },
            BcsName::Ternary => {
                let when_false = pop_stack_value(&mut self.operand_stack);
                let when_true = pop_stack_value(&mut self.operand_stack);
                let condition = pop_i32(&mut self.operand_stack);
                self.operand_stack.push(
                    if condition != 0 {
                        when_true
                    } else {
                        when_false
                    },
                );
            },
            BcsName::Sin | BcsName::Cos => {
                let angle = pop_i32(&mut self.operand_stack);
                let f = if name == BcsName::Sin {
                    TrigFunction::Sin
                } else {
                    TrigFunction::Cos
                };
                self.trig_request = Some((f, angle));
            },
            _ => {
                let right = pop_i32(&mut self.operand_stack);
                let left = pop_i32(&mut self.operand_stack);
                let r = if is_binary_name(name) {
                    execute_binary_operator(name, left, right)
                } else if execute_comparison(name, left, right) {
                    1
                } else {
                    0
                };
                self.operand_stack.push(BcsValue::Int(r));
            },
        }
    }
}

impl ScenarioPlayback {
    fn exec_misc(&mut self, opcode: u32, name: BcsName, args: &Vec<BcsValue>)
        requires
            old(self).wf(),
            name == BcsName::SourceLine || name == BcsName::Cmd0xe3 || name == BcsName::Cmd0xe2 || name
                == BcsName::EndIf || name == BcsName::CheckTranslatorNote || name
                == BcsName::RegExceptionHandler || name == BcsName::UnregExceptionHandler,
        ensures
            final(self).wf(),
            final(self)@ == execute_spec(old(self)@, opcode, name, args@),
    {
        match name {
            BcsName::RegExceptionHandler => {
                let _ = pop_i32(&mut self.operand_stack);
            },
            BcsName::UnregExceptionHandler => {},
            _ => {
                let pending = self.pending_arg_count;
                self.pending_arg_count = None;
                let _ = take_pending_args(&mut self.operand_stack, pending);
                if name == BcsName::CheckTranslatorNote {
                    self.operand_stack.push(BcsValue::Int(0));
                }
            },
        }
    }

    fn exec_wait_result(&mut self, opcode: u32, name: BcsName, args: &Vec<BcsValue>)
        requires
            old(self).wf(),
            opcode == 0xe5,
            !is_binary(name),
            !is_comparison(name),
            name == BcsName::Sprite || name == BcsName::Bg || name == BcsName::BgTransition || name
                == BcsName::Bg240 || name == BcsName::SpriteHide || name == BcsName::SpriteHideAll
                || name == BcsName::Wait || name == BcsName::Cmd0x120 || name == BcsName::Say || name
                == BcsName::Msg || name == BcsName::Sound || name == BcsName::Sound1a0 || name
                == BcsName::Snd || name == BcsName::ExecScript || name == BcsName::Other,
        ensures
            final(self).wf(),
            final(self)@ == execute_spec(old(self)@, opcode, name, args@),
    {
        let pending = self.pending_arg_count;
        self.pending_arg_count = None;
        let _ = take_pending_args(&mut self.operand_stack, pending);
        let ready: i32 = if self.wait_return_ready {
            1
        } else {
            0
        };
        self.wait_return_ready = false;
        self.operand_stack.push(BcsValue::Int(ready));
    }

    fn resolve_symbol(&mut self)
        requires
            old(self).wf(),
        ensures
            final(self).wf(),
            final(self)@ == resolve_spec(old(self)@),
    {
        let sym = match self.operand_stack.pop() {
            Some(v) => v,
            None => return,
        };
        let n = self.operand_stack.len();
        let file: Option<String> = if n > 0 {
            match &self.operand_stack[n - 1] {
                BcsValue::Str(t) => if looks_like_script_name(t.as_str()) {
                    Some(t.clone())
                } else {
                    None
                },
                _ => None,
            }
        } else {
            None
        };
        if let Some(file) = file {
            self.operand_stack.pop();
            let symbol = match sym {
                BcsValue::Str(x) => Some(x),
                _ => None,
            };
            self.resolved_symbol = Some(ResolvedSymbol::External { file, symbol });
            return;
        }
        self.resolved_symbol = match sym {
            BcsValue::Str(x) => match find_symbol_address(&self.program.symbols, &x) {
                Some(a) => Some(ResolvedSymbol::Local(a)),
                None => None,
            },
            _ => None,
        };
    }

    fn request_script(&mut self, file: String, symbol: Option<String>)
        requires
            old(self).wf(),
        ensures
            final(self).wf(),
            final(self)@ == request_script_spec(old(self)@, file@, symbol),
    {
        let kept = match &symbol {
            Some(x) => Some(x.clone()),
            None => None,
        };
        self.awaiting_external_script = Some(
            PendingExternalScript { symbol: kept, transfer: ScriptTransfer::Call },
        );
        self.decoder.emit(
            ScenarioAction::LoadScript { file, symbol, transfer: ScriptTransfer::Call },
        );
    }

    fn invoke_external_script(&mut self)
        requires
            old(self).wf(),
        ensures
            final(self).wf(),
            final(self)@ == external_script_spec(old(self)@),
    {
        let taken = self.resolved_symbol.take();
        match taken {
            Some(ResolvedSymbol::External { file, symbol }) => self.request_script(file, symbol),
            _ => {
                let pending = self.pending_arg_count;
                self.pending_arg_count = None;
                let args = take_script_jump_context(&mut self.operand_stack, pending);
                if let Some(file) = first_string_of_kind(args.as_slice(), StrKind::Script) {
                    self.request_script(file, None);
                }
            },
        }
    }

    fn invoke_engine_command(&mut self, opcode: u32, name: BcsName, args: &Vec<BcsValue>)
        requires
            old(self).wf(),
            opcode != 0xe5,
            !is_binary(name),
            !is_comparison(name),
            name == BcsName::Sprite || name == BcsName::Bg || name == BcsName::BgTransition || name
                == BcsName::Bg240 || name == BcsName::SpriteHide || name == BcsName::SpriteHideAll
                || name == BcsName::Wait || name == BcsName::Cmd0x120 || name == BcsName::Say || name
                == BcsName::Msg || name == BcsName::Sound || name == BcsName::Sound1a0 || name
                == BcsName::Snd || name == BcsName::ExecScript || name == BcsName::Other,
        ensures
            final(self).wf(),
            final(self)@ == execute_spec(old(self)@, opcode, name, args@),
    {
        if opcode == 0xf0 || opcode == 0xf3 {
            self.invoke_external_script();
            return;
        }
        let operands = if opcode == 0x1c {
            take_script_call_context(&mut self.operand_stack)
        } else {
            let pending = self.pending_arg_count;
            self.pending_arg_count = None;
            take_pending_args(&mut self.operand_stack, pending)
        };
        self.decoder.observe_invocation(opcode, name, operands.as_slice());
    }

    /// Runs one instruction, the position already past it (see
    /// [`execute_spec`]).
    pub fn execute_command(&mut self, opcode: u32, name: BcsName, args: &Vec<BcsValue>)
        requires
            old(self).wf(),
        ensures
            final(self).wf(),
            final(self)@ == execute_spec(old(self)@, opcode, name, args@),
    {
        match name {
            BcsName::PushDword | BcsName::PushString | BcsName::PushOffset | BcsName::PushBaseOffset
            | BcsName::Nargs => self.exec_push(opcode, name, args),
            BcsName::Jmp | BcsName::Jc | BcsName::Call | BcsName::Ret => self.exec_control(
                opcode,
                name,
                args,
            ),
            BcsName::GetStackPointer | BcsName::LoadBase | BcsName::SetStackPointer
            | BcsName::StoreBase | BcsName::WriteMemCopy | BcsName::Move | BcsName::WriteMem
            | BcsName::MoveArg | BcsName::ReadMem | BcsName::Load => self.exec_memory(
                opcode,
                name,
                args,
            ),
            BcsName::GlobalSet | BcsName::GlobalGet => self.exec_globals(opcode, name, args),
            BcsName::Not | BcsName::BoolZero | BcsName::Ternary | BcsName::Sin | BcsName::Cos
            | BcsName::Add | BcsName::Sub | BcsName::Mul | BcsName::Div | BcsName::Mod
            | BcsName::And | BcsName::Or | BcsName::Xor | BcsName::Shl | BcsName::Shr
            | BcsName::Sar | BcsName::Eq | BcsName::Neq | BcsName::Leq | BcsName::Geq
            | BcsName::Lt | BcsName::Gt | BcsName::BoolAnd | BcsName::BoolOr => self.exec_arithmetic(
                opcode,
                name,
                args,
            ),
            BcsName::SourceLine | BcsName::Cmd0xe3 | BcsName::Cmd0xe2 | BcsName::EndIf
            | BcsName::CheckTranslatorNote | BcsName::RegExceptionHandler
            | BcsName::UnregExceptionHandler => self.exec_misc(opcode, name, args),
            BcsName::ResolveSymbol => self.resolve_symbol(),
            _ => if opcode == 0xe5 {
                self.exec_wait_result(opcode, name, args)
            } else {
                self.invoke_engine_command(opcode, name, args)
            },
        }
    }
}

impl ScenarioPlayback {
    /// Plays one frame: hands out the next action, if one comes before
    /// playback has to wait, and reports whether the input advance was used
    /// (see [`tick_spec`]).
    pub fn tick(&mut self, input_advance: bool) -> (out: (Option<ScenarioAction>, bool))
        requires
            old(self).wf(),
        ensures
            final(self).wf(),
            ({
                let (s, a, c) = tick_spec(old(self)@, input_advance, false, frame_budget());
                &&& final(self)@ == s
                &&& out.1 == c
                &&& match out.0 {
                    Some(x) => a == Some(x@),
                    None => a is None,
                }
            }),
    {
        let mut consumed = false;
        let mut budget: u32 = 2048;
        while budget > 0
            invariant
                self.wf(),
                tick_spec(old(self)@, input_advance, false, frame_budget()) == tick_spec(
                    self@,
                    input_advance,
                    consumed,
                    budget as nat,
                ),
            decreases budget,
        {
            if self.trig_request.is_some() {
                return (None, consumed);
            }
            if self.waiting_for_input {
                if !input_advance {
                    return (None, consumed);
                }
                self.waiting_for_input = false;
                self.wait_return_ready = true;
                consumed = true;
            }
            if self.wait_frames > 0 {
                self.wait_frames = self.wait_frames - 1;
                return (None, consumed);
            }
            if self.completed {
                return (None, consumed);
            }
            if self.decoder.actions.len() > 0 {
                let action = self.decoder.take_first();
                match action {
                    ScenarioAction::Wait { frames } => {
                        self.wait_frames = frames;
                        return (None, consumed);
                    },
                    ScenarioAction::WaitForInput => {
                        if !input_advance {
                            self.waiting_for_input = true;
                            return (None, consumed);
                        }
                        consumed = true;
                    },
                    a => {
                        return (Some(a), consumed);
                    },
                }
            } else {
                if self.pc >= self.program.commands.len() {
                    self.completed = true;
                    return (None, consumed);
                }
                let opcode = self.program.commands[self.pc].opcode;
                let name = self.program.commands[self.pc].name;
                let args = duplicate_values(&self.program.commands[self.pc].args);
                self.pc = self.pc + 1;
                self.execute_command(opcode, name, &args);
            }
            budget = budget - 1;
        }
        (None, consumed)
    }

    /// Loads the script that playback waits for (see [`append_spec`]).
    pub fn append_program(&mut self, program: BcsProgram) -> (out: Option<usize>)
        requires
            old(self).wf(),
        ensures
            final(self).wf(),
            (final(self)@, out) == append_spec(old(self)@, program.commands@, program.symbols@),
    {
        let count = program.commands.len();
        let pending = match self.awaiting_external_script.take() {
            Some(p) => p,
            None => return None,
        };
        if program.commands.len() == 0 {
            return None;
        }
        let mut map = address_index(&program.commands);
        let mut pc: usize = 0;
        if let Some(symbol) = &pending.symbol {
            let address = match find_symbol_address(&program.symbols, symbol) {
                Some(a) => a,
                None => return None,
            };
            pc = match map.get(&address) {
                Some(p) => *p,
                None => return None,
            };
        }
        let ghost old_frame = self@.frame;
        let mut prog = program;
        std::mem::swap(&mut prog, &mut self.program);
        std::mem::swap(&mut map, &mut self.address_to_pc);
        let mut stack: Vec<BcsValue> = Vec::new();
        std::mem::swap(&mut stack, &mut self.operand_stack);
        let mut memory = BcsMemory { pointer: 0, values: BTreeMap::new() };
        std::mem::swap(&mut memory, &mut self.memory);
        let mut calls: Vec<usize> = Vec::new();
        std::mem::swap(&mut calls, &mut self.call_stack);
        let frame = ExternalBcsFrame {
            program: prog,
            address_to_pc: map,
            pc: self.pc,
            operand_stack: stack,
            memory,
            call_stack: calls,
            pending_arg_count: self.pending_arg_count,
            resolved_symbol: self.resolved_symbol.take(),
        };
        assert(frame.model() == old_frame);
        assert(frame.wf());
        self.pc = pc;
        self.pending_arg_count = None;
        if pending.transfer == ScriptTransfer::Call {
            let ghost before = self.external_call_stack@;
            self.external_call_stack.push(frame);
            assert(self.external_call_stack@.map_values(|f: ExternalBcsFrame| f.model())
                =~= before.map_values(|f: ExternalBcsFrame| f.model()).push(old_frame));
        }
        self.completed = false;
        assert(self@.frame.stack =~= Seq::<BcsValue>::empty());
        assert(self@.frame.calls =~= Seq::<usize>::empty());
        Some(count)
    }

    /// Answers a trigonometric request with the host's fixed-point value
    /// (the sine or cosine of the angle over 65536, times 65536) and
    /// resumes playback.
    pub fn supply_trig(&mut self, value: i32)
        requires
            old(self).wf(),
        ensures
            final(self).wf(),
            old(self)@.trig is Some ==> final(self)@ == (VmModel {
                trig: None,
                ..with_stack(old(self)@, old(self)@.frame.stack.push(BcsValue::Int(value)))
            }),
            old(self)@.trig is None ==> final(self)@ == old(self)@,
    {
        if self.trig_request.is_some() {
            self.trig_request = None;
            self.operand_stack.push(BcsValue::Int(value));
        }
    }
}

/// The address of the first label named `name` (see [`find_symbol`]).
pub fn find_symbol_address(symbols: &Vec<BcsSymbol>, name: &String) -> (out: Option<u32>)
    ensures
        out == find_symbol(symbols@, name@),
{
    let mut i: usize = 0;
    assert(symbols@.subrange(0, symbols@.len() as int) =~= symbols@);
    while i < symbols.len()
        invariant
            i <= symbols@.len(),
            find_symbol(symbols@, name@) == find_symbol(
                symbols@.subrange(i as int, symbols@.len() as int),
                name@,
            ),
        decreases symbols@.len() - i,
    {
        assert(symbols@.subrange(i as int, symbols@.len() as int)[0] == symbols@[i as int]);
        if symbols[i].name == *name {
            return Some(symbols[i].addr);
        }
        assert(symbols@.subrange(i as int, symbols@.len() as int).drop_first() =~= symbols@.subrange(
            i as int + 1,
            symbols@.len() as int,
        ));
        i += 1;
    }
    None
}

/// The first operand string of kind `kind` (see [`first_of_kind`]).
pub fn first_string_of_kind(values: &[BcsValue], kind: StrKind) -> (out: Option<String>)
    ensures
        opt_chars(out) == first_of_kind(strings_of(values@), kind),
{
    let all = strings(values);
    let ghost strs = strings_of(values@);
    let mut i: usize = 0;
    assert(strs.subrange(0, strs.len() as int) =~= strs);
    while i < all.len()
        invariant
            i <= all@.len(),
            strs == strings_of(values@),
            all@.map_values(|s: String| s@) == strs,
            first_of_kind(strs, kind) == first_of_kind(strs.subrange(i as int, strs.len() as int), kind),
        decreases all@.len() - i,
    {
        assert(strs.subrange(i as int, strs.len() as int)[0] == all@[i as int]@);
        if str_is_kind(kind, all[i].as_str()) {
            return Some(all[i].clone());
        }
        assert(strs.subrange(i as int, strs.len() as int).drop_first() =~= strs.subrange(
            i as int + 1,
            strs.len() as int,
        ));
        i += 1;
    }
    None
}

fn push_all(stack: &mut Vec<BcsValue>, args: &Vec<BcsValue>)
    ensures
        final(stack)@ == old(stack)@ + args@,
{
    let mut i: usize = 0;
    while i < args.len()
        invariant
            i <= args@.len(),
            stack@ == old(stack)@ + args@.take(i as int),
        decreases args@.len() - i,
    {
        stack.push(args[i].duplicate());
        assert(old(stack)@ + args@.take(i as int + 1) =~= (old(stack)@ + args@.take(i as int)).push(
            args@[i as int],
        ));
        i += 1;
    }
    assert(args@.take(args@.len() as int) =~= args@);
}

fn push_offsets(stack: &mut Vec<BcsValue>, resolved: &Option<ResolvedSymbol>, args: &Vec<BcsValue>)
    ensures
        final(stack)@ == old(stack)@ + args@.map_values(|v: BcsValue| offset_value(*resolved, v)),
{
    let mut i: usize = 0;
    while i < args.len()
        invariant
            i <= args@.len(),
            stack@ == old(stack)@ + args@.take(i as int).map_values(
                |v: BcsValue| offset_value(*resolved, v),
            ),
        decreases args@.len() - i,
    {
        let v = match (resolved, &args[i]) {
            (Some(ResolvedSymbol::Local(base)), BcsValue::Addr(offset)) => BcsValue::Addr(
                base.wrapping_add(*offset as u32) as i32,
            ),
            (_, v) => v.duplicate(),
        };
        stack.push(v);
        assert(args@.take(i as int + 1).map_values(|v: BcsValue| offset_value(*resolved, v))
            =~= args@.take(i as int).map_values(|v: BcsValue| offset_value(*resolved, v)).push(
            offset_value(*resolved, args@[i as int]),
        ));
        i += 1;
    }
    assert(args@.take(args@.len() as int) =~= args@);
}

fn push_base_offsets(stack: &mut Vec<BcsValue>, pointer: i32, args: &Vec<BcsValue>)
    ensures
        final(stack)@ == old(stack)@ + args@.map_values(|v: BcsValue| base_offset_value(pointer, v)),
{
    let mut i: usize = 0;
    while i < args.len()
        invariant
            i <= args@.len(),
            stack@ == old(stack)@ + args@.take(i as int).map_values(
                |v: BcsValue| base_offset_value(pointer, v),
            ),
        decreases args@.len() - i,
    {
        let v = match &args[i] {
            BcsValue::BaseOffset(offset) => BcsValue::MemoryAddr(pointer.wrapping_sub(*offset)),
            v => v.duplicate(),
        };
        stack.push(v);
        assert(args@.take(i as int + 1).map_values(|v: BcsValue| base_offset_value(pointer, v))
            =~= args@.take(i as int).map_values(|v: BcsValue| base_offset_value(pointer, v)).push(
            base_offset_value(pointer, args@[i as int]),
        ));
        i += 1;
    }
    assert(args@.take(args@.len() as int) =~= args@);
}

fn is_binary_name(name: BcsName) -> (out: bool)
    ensures
        out == is_binary(name),
{
    match name {
        BcsName::Add | BcsName::Sub | BcsName::Mul | BcsName::Div | BcsName::Mod | BcsName::And
        | BcsName::Or | BcsName::Xor | BcsName::Shl | BcsName::Shr | BcsName::Sar => true,
        _ => false,
    }
}


} // verus!
