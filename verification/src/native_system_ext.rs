use vstd::prelude::*;
use crate::native_call::{lemma_pop_pushed_int, pop0, pop_any_spec, pop_any_value, pop_int_value, pop_source_ints, source_ints_spec, NativeValue};

verus! {

/// The input and window state the extended system calls read and set: the
/// pending synthetic input (descriptor, state, whether it was consumed), the
/// latched input state, the message auxiliary input mask, the system mode
/// flag, the window requests and mode, the focus and configuration input
/// settings, the frame-yield request, and the descriptor the host uses for
/// the left mouse button.
#[derive(Debug, Clone, Copy, PartialEq, Eq, Structural)]
pub struct SystemInputState {
    pub pending_input_descriptor: Option<i32>,
    pub pending_input_state: Option<i32>,
    pub pending_input_consumed: bool,
    pub input_latched_state: i32,
    pub message_auxiliary_input_mask: i32,
    pub system_mode_flag: i32,
    pub pending_window_minimize: bool,
    pub window_mode: i32,
    pub input_requires_focus: bool,
    pub system_config_input_mode: i32,
    pub frame_yield_requested: bool,
    pub mouse_left_descriptor: i32,
}

/// The calls of group `0x81` whose outputs the script machine writes, or
/// that no portable backend provides: how many arguments each drops and
/// what it returns.
pub open spec fn ext_discard_call(id: u8) -> Option<(nat, NativeValue)> {
    if id == 0x08 || id == 0x09 || id == 0x11 {
        Some((1, NativeValue::Void))
    } else if id == 0x0A {
        Some((1, NativeValue::Int(1)))
    } else if id == 0x3C || id == 0x6B || id == 0xD1 {
        Some((1, NativeValue::Int(0)))
    } else if id == 0x6D || id == 0x6E {
        Some((0, NativeValue::Int(0)))
    } else if id == 0x0C || id == 0x0D {
        Some((2, NativeValue::Void))
    } else if id == 0x07 || id == 0x1B || id == 0x29 || id == 0x3D || id == 0x3E || id == 0xD0 || id == 0xD3 {
        Some((2, NativeValue::Int(0)))
    } else if id == 0x1D {
        Some((2, NativeValue::Int((i32::MIN + 1) as i32)))
    } else if id == 0xB0 || id == 0xB7 {
        Some((2, NativeValue::Int(-1i32)))
    } else if id == 0x0B || id == 0xE9 || id == 0xEA {
        Some((3, NativeValue::Void))
    } else if id == 0x28 || id == 0x2B || id == 0x39 || id == 0x3A || id == 0xD5 {
        Some((3, NativeValue::Int(0)))
    } else if id == 0x17 || id == 0x2A || id == 0x2C || id == 0x2D || id == 0x32 || id == 0x3B || id == 0x44 || id
        == 0xD4 {
        Some((4, NativeValue::Int(0)))
    } else if id == 0xD2 {
        Some((5, NativeValue::Int(0)))
    } else if id == 0x38 || id == 0xE0 {
        Some((7, NativeValue::Int(0)))
    } else {
        None
    }
}

/// A boolean as the script's 0 or 1.
pub open spec fn flag(b: bool) -> NativeValue {
    NativeValue::Int(if b { 1 } else { 0 })
}

/// An extended system call (group `0x81`): the state after it, the
/// arguments it leaves and its result; `None` for another group or call.
pub open spec fn system_ext_call_spec(s: SystemInputState, group: u8, id: u8, args: Seq<NativeValue>) -> Option<
    (SystemInputState, Seq<NativeValue>, NativeValue),
> {
    if group != 0x81 {
        None
    } else if ext_discard_call(id) is Some {
        let (n, v) = ext_discard_call(id)->0;
        Some((s, source_ints_spec(args, n).0, v))
    } else if id == 0x04 {
        let (a, interval) = pop0(args);
        Some((s, a, flag(50 <= interval <= 60_000)))
    } else if id == 0x10 {
        let (a1, descriptor) = pop0(args);
        let (a2, value) = pop0(a1);
        let state = match s.pending_input_state {
            Some(v) => v,
            None => 0,
        };
        Some(
            (
                s,
                a2,
                flag(!s.pending_input_consumed && s.pending_input_descriptor == Some(descriptor) && state == value),
            ),
        )
    } else if id == 0x14 {
        let (a, v) = pop0(args);
        Some((SystemInputState { input_latched_state: v, ..s }, a, NativeValue::Void))
    } else if id == 0x16 {
        let (a1, capacity) = pop0(args);
        let (a2, _interval) = pop0(a1);
        Some((s, a2, flag(0 <= capacity <= 0x200)))
    } else if id == 0x1E {
        let (a, button) = pop0(args);
        if button == 1 {
            Some(
                (
                    SystemInputState {
                        pending_input_descriptor: Some(s.mouse_left_descriptor),
                        pending_input_state: Some(6),
                        pending_input_consumed: false,
                        ..s
                    },
                    a,
                    NativeValue::Int(1),
                ),
            )
        } else {
            Some((s, a, NativeValue::Int(0)))
        }
    } else if id == 0x1F {
        let (a, mask) = pop0(args);
        Some((SystemInputState { message_auxiliary_input_mask: mask, ..s }, a, NativeValue::Void))
    } else if id == 0x61 {
        Some((s, args, NativeValue::Int(s.system_mode_flag)))
    } else if id == 0x65 {
        let (a, v) = pop0(args);
        Some((SystemInputState { pending_window_minimize: v != 0, ..s }, a, NativeValue::Void))
    } else if id == 0x68 {
        let (a, v) = pop0(args);
        Some((SystemInputState { window_mode: v, ..s }, a, NativeValue::Int(s.window_mode)))
    } else if id == 0x69 {
        let (a, v) = pop0(args);
        Some((SystemInputState { input_requires_focus: v != 0, ..s }, a, NativeValue::Void))
    } else if id == 0x6A {
        let (a, v) = pop0(args);
        Some((SystemInputState { system_config_input_mode: v, ..s }, a, NativeValue::Void))
    } else if id == 0xEC {
        Some((s, pop_any_spec(args), NativeValue::Int(s.system_config_input_mode)))
    } else if id == 0xED {
        let (a, v) = pop0(args);
        Some((SystemInputState { system_config_input_mode: v, ..s }, a, NativeValue::Int(v)))
    } else if id == 0xF2 {
        Some((SystemInputState { frame_yield_requested: true, ..s }, source_ints_spec(args, 13).0, NativeValue::Void))
    } else {
        None
    }
}

/// A synthesised left click is what the pending-input query then reports:
/// the left-button descriptor in state 6, not yet consumed.
pub proof fn law_synthesised_click_is_pending(s: SystemInputState, rest: Seq<NativeValue>)
    ensures
        ({
            let clicked = system_ext_call_spec(s, 0x81, 0x1E, rest.push(NativeValue::Int(1)));
            &&& clicked matches Some((s2, a, v)) && a == rest && v == NativeValue::Int(1)
            &&& clicked matches Some((s2, _, _)) ==> system_ext_call_spec(
                s2,
                0x81,
                0x10,
                rest.push(NativeValue::Int(6)).push(NativeValue::Int(s.mouse_left_descriptor)),
            ) == Some((s2, rest, NativeValue::Int(1)))
        }),
{
    lemma_pop_pushed_int(rest, 1);
    lemma_pop_pushed_int(rest.push(NativeValue::Int(6)), s.mouse_left_descriptor);
    lemma_pop_pushed_int(rest, 6);
}

/// The number of arguments a discarding call drops and its result (see
/// [`ext_discard_call`]).
fn ext_discard_entry(id: u8) -> (out: Option<(usize, NativeValue)>)
    ensures
        match (out, ext_discard_call(id)) {
            (Some((n, v)), Some((m, w))) => n == m && v == w,
            (None, None) => true,
            _ => false,
        },
{
    if id == 0x08 || id == 0x09 || id == 0x11 {
        Some((1, NativeValue::Void))
    } else if id == 0x0A {
        Some((1, NativeValue::Int(1)))
    } else if id == 0x3C || id == 0x6B || id == 0xD1 {
        Some((1, NativeValue::Int(0)))
    } else if id == 0x6D || id == 0x6E {
        Some((0, NativeValue::Int(0)))
    } else if id == 0x0C || id == 0x0D {
        Some((2, NativeValue::Void))
    } else if id == 0x07 || id == 0x1B || id == 0x29 || id == 0x3D || id == 0x3E || id == 0xD0 || id == 0xD3 {
        Some((2, NativeValue::Int(0)))
    } else if id == 0x1D {
        Some((2, NativeValue::Int(i32::MIN + 1)))
    } else if id == 0xB0 || id == 0xB7 {
        Some((2, NativeValue::Int(-1)))
    } else if id == 0x0B || id == 0xE9 || id == 0xEA {
        Some((3, NativeValue::Void))
    } else if id == 0x28 || id == 0x2B || id == 0x39 || id == 0x3A || id == 0xD5 {
        Some((3, NativeValue::Int(0)))
    } else if id == 0x17 || id == 0x2A || id == 0x2C || id == 0x2D || id == 0x32 || id == 0x3B || id == 0x44 || id
        == 0xD4 {
        Some((4, NativeValue::Int(0)))
    } else if id == 0xD2 {
        Some((5, NativeValue::Int(0)))
    } else if id == 0x38 || id == 0xE0 {
        Some((7, NativeValue::Int(0)))
    } else {
        None
    }
}

fn flag_value(b: bool) -> (v: NativeValue)
    ensures
        v == flag(b),
{
    NativeValue::Int(if b { 1 } else { 0 })
}

impl SystemInputState {
    /// Runs an extended system call of group `0x81`: pops its arguments
    /// (missing integers read as 0), updates the input and window state,
    /// and returns the call's result (see [`system_ext_call_spec`]); `None`
    /// for another group or call.
    pub fn dispatch_native_system_ext(&mut self, group: u8, id: u8, args: &mut Vec<NativeValue>) -> (out: Option<
        NativeValue,
    >)
        ensures
            match (system_ext_call_spec(*old(self), group, id, old(args)@), out) {
                (Some((s, a, v)), Some(ov)) => *final(self) == s && final(args)@ == a && ov == v,
                (None, None) => *final(self) == *old(self) && final(args)@ == old(args)@,
                _ => false,
            },
    {
        if group != 0x81 {
            return None;
        }
        if let Some((n, v)) = ext_discard_entry(id) {
            let _ = pop_source_ints(args, n);
            return Some(v);
        }
        if id == 0x04 {
            let interval = pop_int_value(args, 0);
            Some(flag_value(50 <= interval && interval <= 60_000))
        } else if id == 0x10 {
            let descriptor = pop_int_value(args, 0);
            let value = pop_int_value(args, 0);
            let state = match self.pending_input_state {
                Some(v) => v,
                None => 0,
            };
            let matches = match self.pending_input_descriptor {
                Some(d) => d == descriptor,
                None => false,
            };
            Some(flag_value(!self.pending_input_consumed && matches && state == value))
        } else if id == 0x14 {
            self.input_latched_state = pop_int_value(args, 0);
            Some(NativeValue::Void)
        } else if id == 0x16 {
            let capacity = pop_int_value(args, 0);
            let _interval = pop_int_value(args, 0);
            Some(flag_value(0 <= capacity && capacity <= 0x200))
        } else if id == 0x1E {
            let button = pop_int_value(args, 0);
            if button == 1 {
                self.pending_input_descriptor = Some(self.mouse_left_descriptor);
                self.pending_input_state = Some(6);
                self.pending_input_consumed = false;
                Some(NativeValue::Int(1))
            } else {
                Some(NativeValue::Int(0))
            }
        } else if id == 0x1F {
            self.message_auxiliary_input_mask = pop_int_value(args, 0);
            Some(NativeValue::Void)
        } else if id == 0x61 {
            Some(NativeValue::Int(self.system_mode_flag))
        } else if id == 0x65 {
            self.pending_window_minimize = pop_int_value(args, 0) != 0;
            Some(NativeValue::Void)
        } else if id == 0x68 {
            let value = pop_int_value(args, 0);
            let previous = self.window_mode;
            self.window_mode = value;
            Some(NativeValue::Int(previous))
        } else if id == 0x69 {
            self.input_requires_focus = pop_int_value(args, 0) != 0;
            Some(NativeValue::Void)
        } else if id == 0x6A {
            self.system_config_input_mode = pop_int_value(args, 0);
            Some(NativeValue::Void)
        } else if id == 0xEC {
            let _ = pop_any_value(args);
            Some(NativeValue::Int(self.system_config_input_mode))
        } else if id == 0xED {
            self.system_config_input_mode = pop_int_value(args, 0);
            Some(NativeValue::Int(self.system_config_input_mode))
        } else if id == 0xF2 {
            let _ = pop_source_ints(args, 13);
            self.frame_yield_requested = true;
            Some(NativeValue::Void)
        } else {
            None
        }
    }
}

} // verus!
