use vstd::prelude::*;
use crate::native_call::{
    int_at_depth, lemma_pop_pushed_int, pop0, pop_source_ints, source_ints_spec, pop_any_spec, pop_any_value, pop_int_spec, pop_int_value, pop_str_spec, pop_string_value, NativeValue,
};
use crate::native_user::{
    debug_blend_mode_spec, debug_handle, debug_slot_spec, is_debug_blend_mode, sjis_truncated, truncate_shift_jis,
    first_free_slot, font_interned, NativeScreenShakeState, int_text, int_text_string, keep_last, NativeDebugBitmapDraw, NativeDialogRequest, NativeDebugTextDraw, NativeDebugWindow, NativeEditControl,
    NativeModelessDialog, NativeUserState,
    MAX_DEBUG_WINDOWS, MAX_DIALOG_HISTORY, MAX_EDIT_TEXT_BYTES,
};
use crate::runtime::RuntimeTraceApi;
use crate::shift_jis::{shift_jis_encoded_len, shift_jis_len};
use crate::text::{chars_of, ends_with, string_of, vec_ends_with, vec_eq};

verus! {

/// A text run drawn into a debug window, with its text as characters.
#[verifier::ext_equal]
pub struct TextDrawModel {
    pub x: i32,
    pub y: i32,
    pub text: Seq<char>,
    pub font_id: i32,
    pub font_size: i32,
    pub style: i32,
    pub color: i32,
    pub blend_mode: i32,
    pub alpha: i32,
    pub extent: i32,
}

/// A debug window with its texts as characters.
#[verifier::ext_equal]
pub struct DebugWindowModel {
    pub title: Seq<char>,
    pub x: i32,
    pub y: i32,
    pub width: i32,
    pub height: i32,
    pub visible: bool,
    pub clear_color: i32,
    pub bitmap_draws: Seq<NativeDebugBitmapDraw>,
    pub text_draws: Seq<TextDrawModel>,
    pub close_message: Seq<char>,
}

/// The part of the user-interface state the window and edit-box calls act
/// on: the eight debug-window slots, the edit box and its text.
#[verifier::ext_equal]
pub struct UserWindowsModel {
    pub slots: Seq<Option<DebugWindowModel>>,
    pub edit: NativeEditControl,
    pub text: Seq<char>,
}

pub open spec fn text_draw_model(d: NativeDebugTextDraw) -> TextDrawModel {
    TextDrawModel {
        x: d.x,
        y: d.y,
        text: d.text@,
        font_id: d.font_id,
        font_size: d.font_size,
        style: d.style,
        color: d.color,
        blend_mode: d.blend_mode,
        alpha: d.alpha,
        extent: d.extent,
    }
}

pub open spec fn window_model(w: NativeDebugWindow) -> DebugWindowModel {
    DebugWindowModel {
        title: w.title@,
        x: w.x,
        y: w.y,
        width: w.width,
        height: w.height,
        visible: w.visible,
        clear_color: w.clear_color,
        bitmap_draws: w.bitmap_draws@,
        text_draws: w.text_draws@.map_values(|d: NativeDebugTextDraw| text_draw_model(d)),
        close_message: w.close_message@,
    }
}

pub open spec fn slot_model(o: Option<NativeDebugWindow>) -> Option<DebugWindowModel> {
    match o {
        Some(w) => Some(window_model(w)),
        None => None,
    }
}

/// The window and edit-box part of a user-interface state.
pub open spec fn user_windows_model(u: NativeUserState) -> UserWindowsModel {
    UserWindowsModel {
        slots: u.debug_windows@.map_values(|o: Option<NativeDebugWindow>| slot_model(o)),
        edit: u.edit,
        text: u.text@,
    }
}

/// Two user-interface states agree outside the debug windows, the edit box
/// and its text.
pub open spec fn same_outside_windows(a: NativeUserState, b: NativeUserState) -> bool {
    (NativeUserState { debug_windows: b.debug_windows, edit: b.edit, text: b.text, ..a }) == b
}

/// The first empty slot at or after `i`.
pub open spec fn first_empty_slot(slots: Seq<Option<DebugWindowModel>>, i: nat) -> Option<int>
    decreases slots.len() - i,
{
    if i >= slots.len() {
        None
    } else if slots[i as int] is None {
        Some(i as int)
    } else {
        first_empty_slot(slots, i + 1)
    }
}

/// A call of the window and edit-box family refused for its arguments.
#[derive(Debug, Clone, Copy, PartialEq, Eq, Structural)]
pub enum UserCallError {
    /// A debug window must be 32 to 2048 pixels each way.
    InvalidDebugWindowSize { width: i32, height: i32 },
    /// The handle names no (open) debug window.
    InvalidDebugHandle { call: u8, handle: i32 },
    /// Bitmap number, blend mode or alpha out of range.
    InvalidDebugBitmap,
    /// Blend mode or alpha out of range.
    InvalidDebugText,
    /// Edit box outside the screen, too small, or with a font size or
    /// length limit out of range.
    InvalidEditControl,
    /// A screen shake with a mode outside `0..=3`, no ticks or cycles, or
    /// fewer updates per second than ticks.
    InvalidShakeConfiguration,
    /// A bitmap drawn to the main window must be a resource in
    /// `0..0x4000`.
    InvalidGraphResource(i32),
}

/// What a call gives: the arguments it leaves and either the new state with
/// its result, or the error it is refused with (the state unchanged).
pub type UserCallOutcome = (Seq<NativeValue>, Result<(UserWindowsModel, NativeValue), UserCallError>);

/// `v` clamped to the `i32` range.
pub open spec fn clamp_i32(v: int) -> i32 {
    if v < i32::MIN {
        i32::MIN
    } else if v > i32::MAX {
        i32::MAX
    } else {
        v as i32
    }
}

/// Half of `v`, rounded toward zero.
pub open spec fn half_toward_zero(v: int) -> int {
    if v >= 0 {
        v / 2
    } else {
        -((-v) / 2)
    }
}

/// The width a debug text run is taken to cover: half the glyph count
/// times the font size (at least 1), rounded up, saturating.
pub open spec fn text_extent(glyphs: nat, font_size: i32) -> i32 {
    let g = glyphs as i32;
    let f: int = if font_size < 1 {
        1
    } else {
        font_size as int
    };
    half_toward_zero(clamp_i32(clamp_i32(g * f) + 1) as int) as i32
}

/// The model with one slot holding `w`.
pub open spec fn with_slot(m: UserWindowsModel, slot: int, w: DebugWindowModel) -> UserWindowsModel {
    UserWindowsModel { slots: m.slots.update(slot, Some(w)), ..m }
}

/// The open window a handle names, with its slot.
pub open spec fn open_window(m: UserWindowsModel, handle: i32) -> Option<(int, DebugWindowModel)> {
    match debug_slot_spec(handle) {
        Some(slot) => match m.slots[slot] {
            Some(w) => Some((slot, w)),
            None => None,
        },
        None => None,
    }
}

/// A call that changes the window `handle` names as `f` says, and fails
/// when it names none.
pub open spec fn window_edit(
    m: UserWindowsModel,
    call: u8,
    handle: i32,
    args: Seq<NativeValue>,
    f: spec_fn(DebugWindowModel) -> DebugWindowModel,
) -> UserCallOutcome {
    match open_window(m, handle) {
        Some((slot, w)) => (args, Ok((with_slot(m, slot, f(w)), NativeValue::Void))),
        None => (args, Err(UserCallError::InvalidDebugHandle { call, handle })),
    }
}

/// The debug-window calls (`0x10`..`0x1C` of group `0xB0`).
pub open spec fn debug_window_call_spec(m: UserWindowsModel, id: u8, args: Seq<NativeValue>) -> Option<
    UserCallOutcome,
> {
    if id == 0x10 {
        let (a1, height) = pop0(args);
        let (a2, width) = pop0(a1);
        let (a3, y) = pop0(a2);
        let (a4, x) = pop0(a3);
        let (a5, title) = pop_str_spec(a4);
        if !(32 <= width <= 2048) || !(32 <= height <= 2048) {
            Some((a5, Err(UserCallError::InvalidDebugWindowSize { width, height })))
        } else {
            match first_empty_slot(m.slots, 0) {
                Some(slot) => Some(
                    (
                        a5,
                        Ok(
                            (
                                with_slot(
                                    m,
                                    slot,
                                    DebugWindowModel {
                                        title,
                                        x,
                                        y,
                                        width,
                                        height,
                                        visible: true,
                                        clear_color: 0,
                                        bitmap_draws: Seq::empty(),
                                        text_draws: Seq::empty(),
                                        close_message: Seq::empty(),
                                    },
                                ),
                                NativeValue::Int(debug_handle(slot)),
                            ),
                        ),
                    ),
                ),
                None => Some((a5, Ok((m, NativeValue::Int(0))))),
            }
        }
    } else if id == 0x11 {
        let (a1, handle) = pop0(args);
        match debug_slot_spec(handle) {
            Some(slot) => Some(
                (a1, Ok((UserWindowsModel { slots: m.slots.update(slot, None), ..m }, NativeValue::Void))),
            ),
            None => Some((a1, Err(UserCallError::InvalidDebugHandle { call: 0x11, handle }))),
        }
    } else if id == 0x14 {
        let (a1, visible) = pop0(args);
        let (a2, handle) = pop0(a1);
        Some(window_edit(m, 0x14, handle, a2, |w: DebugWindowModel| DebugWindowModel { visible: visible != 0, ..w }))
    } else if id == 0x15 {
        let (a1, title) = pop_str_spec(args);
        let (a2, handle) = pop0(a1);
        Some(window_edit(m, 0x15, handle, a2, |w: DebugWindowModel| DebugWindowModel { title, ..w }))
    } else if id == 0x16 {
        let (a1, y) = pop0(args);
        let (a2, x) = pop0(a1);
        let (a3, handle) = pop0(a2);
        Some(window_edit(m, 0x16, handle, a3, |w: DebugWindowModel| DebugWindowModel { x, y, ..w }))
    } else if id == 0x17 {
        let (a1, handle) = pop0(args);
        match open_window(m, handle) {
            Some((slot, w)) => Some((a1.push(NativeValue::Int(w.x)), Ok((m, NativeValue::Int(w.y))))),
            None => Some((a1, Err(UserCallError::InvalidDebugHandle { call: 0x17, handle }))),
        }
    } else if id == 0x18 {
        let (a1, color) = pop0(args);
        let (a2, handle) = pop0(a1);
        Some(
            window_edit(
                m,
                0x18,
                handle,
                a2,
                |w: DebugWindowModel|
                    DebugWindowModel {
                        clear_color: color,
                        bitmap_draws: Seq::empty(),
                        text_draws: Seq::empty(),
                        ..w
                    },
            ),
        )
    } else if id == 0x19 {
        let (a1, alpha) = pop0(args);
        let (a2, blend_mode) = pop0(a1);
        let (a3, bitmap) = pop0(a2);
        let (a4, y) = pop0(a3);
        let (a5, x) = pop0(a4);
        let (a6, handle) = pop0(a5);
        if !(0 <= bitmap < 0x4000) || !debug_blend_mode_spec(blend_mode) || !(0 <= alpha <= 256) {
            Some((a6, Err(UserCallError::InvalidDebugBitmap)))
        } else {
            let draw = NativeDebugBitmapDraw { x, y, bitmap, blend_mode, alpha };
            Some(
                window_edit(
                    m,
                    0x19,
                    handle,
                    a6,
                    |w: DebugWindowModel| DebugWindowModel { bitmap_draws: w.bitmap_draws.push(draw), ..w },
                ),
            )
        }
    } else if id == 0x1A {
        let (a1, alpha) = pop0(args);
        let (a2, blend_mode) = pop0(a1);
        let (a3, color) = pop0(a2);
        let (a4, style) = pop0(a3);
        let (a5, font_size) = pop0(a4);
        let (a6, font_id) = pop0(a5);
        let (a7, text) = pop_str_spec(a6);
        let (a8, y) = pop0(a7);
        let (a9, x) = pop0(a8);
        let (a10, handle) = pop0(a9);
        if !debug_blend_mode_spec(blend_mode) || !(0 <= alpha <= 256) {
            Some((a10, Err(UserCallError::InvalidDebugText)))
        } else {
            let extent = text_extent(text.len(), font_size);
            let draw = TextDrawModel { x, y, text, font_id, font_size, style, color, blend_mode, alpha, extent };
            match open_window(m, handle) {
                Some((slot, w)) => Some(
                    (
                        a10,
                        Ok(
                            (
                                with_slot(m, slot, DebugWindowModel { text_draws: w.text_draws.push(draw), ..w }),
                                NativeValue::Int(extent),
                            ),
                        ),
                    ),
                ),
                None => Some((a10, Err(UserCallError::InvalidDebugHandle { call: 0x1A, handle }))),
            }
        }
    } else if id == 0x1C {
        let (a1, close_message) = pop_str_spec(args);
        let (a2, handle) = pop0(a1);
        Some(window_edit(m, 0x1C, handle, a2, |w: DebugWindowModel| DebugWindowModel { close_message, ..w }))
    } else {
        None
    }
}


/// Moving an open debug window and then asking for its position gives back
/// the position it was moved to, and the query changes nothing.
pub proof fn law_debug_window_move_then_query(m: UserWindowsModel, handle: i32, x: i32, y: i32, rest: Seq<NativeValue>)
    requires
        m.slots.len() == MAX_DEBUG_WINDOWS,
        open_window(m, handle) is Some,
    ensures
        ({
            let moved = debug_window_call_spec(
                m,
                0x16,
                rest.push(NativeValue::Int(handle)).push(NativeValue::Int(x)).push(NativeValue::Int(y)),
            );
            &&& moved matches Some((a, Ok((m2, v)))) && a == rest && v == NativeValue::Void
            &&& moved matches Some((_, Ok((m2, _)))) ==> debug_window_call_spec(
                m2,
                0x17,
                rest.push(NativeValue::Int(handle)),
            ) == Some((rest.push(NativeValue::Int(x)), Ok::<(UserWindowsModel, NativeValue), UserCallError>((m2, NativeValue::Int(y)))))
        }),
{
    let a1 = rest.push(NativeValue::Int(handle));
    let a2 = a1.push(NativeValue::Int(x));
    lemma_pop_pushed_int(a2, y);
    lemma_pop_pushed_int(a1, x);
    lemma_pop_pushed_int(rest, handle);
    let (slot, w) = open_window(m, handle)->0;
    let m2 = with_slot(m, slot, DebugWindowModel { x, y, ..w });
    assert(open_window(m2, handle) == Some((slot, DebugWindowModel { x, y, ..w })));
}

/// A colour given as `0x00BBGGRR` with its red and blue bytes exchanged.
pub open spec fn swap_red_blue(v: i32) -> i32 {
    let c = v as u32;
    ((((c & 0xFF) << 16u32) | (c & 0xFF00)) | ((c & 0xFF_0000) >> 16u32)) as i32
}

/// The edit-box calls (`0x20`..`0x29` of group `0xB0`) on a screen of the
/// given size.
pub open spec fn edit_call_spec(m: UserWindowsModel, screen_width: i32, screen_height: i32, id: u8, args: Seq<
    NativeValue,
>) -> Option<UserCallOutcome> {
    let e = m.edit;
    if id == 0x20 {
        let (a1, focus) = pop0(args);
        let (a2, max_chars) = pop0(a1);
        let (a3, font_size) = pop0(a2);
        let (a4, font_id) = pop0(a3);
        let (a5, height) = pop0(a4);
        let (a6, width) = pop0(a5);
        let (a7, y) = pop0(a6);
        let (a8, x) = pop0(a7);
        if width < 8 || height < 8 || x < 0 || y < 0 || clamp_i32(x + width) > screen_width || clamp_i32(
            y + height,
        ) > screen_height || !(8 <= font_size <= 64) || !(1 <= max_chars <= 256) {
            Some((a8, Err(UserCallError::InvalidEditControl)))
        } else {
            let e2 = NativeEditControl {
                active: true,
                visible: true,
                x,
                y,
                width,
                height,
                font_id,
                font_size,
                max_chars: max_chars as usize,
                focused: focus != 0,
                ..e
            };
            Some((a8, Ok((UserWindowsModel { edit: e2, ..m }, NativeValue::Void))))
        }
    } else if id == 0x21 {
        let e2 = NativeEditControl { active: false, visible: false, focused: false, ..e };
        Some((args, Ok((UserWindowsModel { edit: e2, ..m }, NativeValue::Int(if e.active { 1 } else { 0 })))))
    } else if id == 0x22 {
        let (a1, scale) = pop0(args);
        if 25 <= scale <= 200 {
            Some(
                (a1, Ok((UserWindowsModel { edit: NativeEditControl { font_scale: scale, ..e }, ..m }, NativeValue::Int(1)))),
            )
        } else {
            Some((a1, Ok((m, NativeValue::Int(0)))))
        }
    } else if id == 0x23 {
        Some((args, Ok((m, NativeValue::Int(if e.active { 1 } else { 0 })))))
    } else if id == 0x24 {
        let (a1, v) = pop0(args);
        Some((a1, Ok((UserWindowsModel { edit: NativeEditControl { visible: v != 0, ..e }, ..m }, NativeValue::Void))))
    } else if id == 0x25 {
        let (a1, v) = pop0(args);
        Some(
            (
                a1,
                Ok((UserWindowsModel { edit: NativeEditControl { color: swap_red_blue(v), ..e }, ..m }, NativeValue::Void)),
            ),
        )
    } else if id == 0x26 {
        let (a1, text) = pop_str_spec(args);
        let limit: nat = if e.max_chars < MAX_EDIT_TEXT_BYTES {
            if e.max_chars < 1 {
                1
            } else {
                e.max_chars as nat
            }
        } else {
            MAX_EDIT_TEXT_BYTES as nat
        };
        Some((a1, Ok((UserWindowsModel { text: sjis_truncated(text, limit), ..m }, NativeValue::Void))))
    } else if id == 0x27 {
        let n = shift_jis_encoded_len(m.text);
        let bytes: i32 = if n < MAX_EDIT_TEXT_BYTES {
            n as i32
        } else {
            MAX_EDIT_TEXT_BYTES as i32
        };
        Some((pop_any_spec(args), Ok((m, NativeValue::Int(bytes)))))
    } else if id == 0x28 {
        let (a1, v) = pop0(args);
        Some(
            (a1, Ok((UserWindowsModel { edit: NativeEditControl { hide_on_enter: v != 0, ..e }, ..m }, NativeValue::Void))),
        )
    } else if id == 0x29 {
        let (a1, v) = pop0(args);
        Some(
            (
                a1,
                Ok(
                    (
                        UserWindowsModel { edit: NativeEditControl { printable_input_enabled: v != 0, ..e }, ..m },
                        NativeValue::Void,
                    ),
                ),
            ),
        )
    } else {
        None
    }
}

/// A window or edit-box call of group `0xB0`; `None` for another group or
/// call.
pub open spec fn user_window_call_spec(
    m: UserWindowsModel,
    screen_width: i32,
    screen_height: i32,
    group: u8,
    id: u8,
    args: Seq<NativeValue>,
) -> Option<UserCallOutcome> {
    if group != 0xB0 {
        None
    } else if 0x10 <= id <= 0x1C {
        debug_window_call_spec(m, id, args)
    } else if 0x20 <= id <= 0x29 {
        edit_call_spec(m, screen_width, screen_height, id, args)
    } else {
        None
    }
}

/// A call's outcome against what the call did: the arguments left, the
/// state after it and its result or error.
pub open spec fn user_call_done(
    before: NativeUserState,
    after: NativeUserState,
    args_after: Seq<NativeValue>,
    spec: Option<UserCallOutcome>,
    out: Option<Result<NativeValue, UserCallError>>,
    args_before: Seq<NativeValue>,
) -> bool {
    match (spec, out) {
        (Some((a, Ok((m, v)))), Some(Ok(ov))) => args_after == a && user_windows_model(after) == m && ov == v,
        (Some((a, Err(e))), Some(Err(oe))) => args_after == a && user_windows_model(after) == user_windows_model(
            before,
        ) && oe == e,
        (None, None) => args_after == args_before && user_windows_model(after) == user_windows_model(before),
        _ => false,
    }
}

/// The first free slot is the same in the windows and in their model.
proof fn lemma_same_free_slot(a: Seq<Option<NativeDebugWindow>>, b: Seq<Option<DebugWindowModel>>, i: nat)
    requires
        a.len() == b.len(),
        forall|j: int| 0 <= j < b.len() ==> (#[trigger] b[j] is Some) == (a[j] is Some),
    ensures
        first_free_slot(a, i) == first_empty_slot(b, i),
    decreases a.len() - i,
{
    if i < a.len() {
        assert((b[i as int] is Some) == (a[i as int] is Some));
        lemma_same_free_slot(a, b, i + 1);
    }
}

/// Setting one slot changes the model in that slot only.
proof fn lemma_slot_set(before: NativeUserState, after: NativeUserState, slot: int, v: Option<NativeDebugWindow>)
    requires
        0 <= slot < before.debug_windows@.len(),
        after.debug_windows@ == before.debug_windows@.update(slot, v),
        after.edit == before.edit,
        after.text@ == before.text@,
    ensures
        user_windows_model(after) == (UserWindowsModel {
            slots: user_windows_model(before).slots.update(slot, slot_model(v)),
            ..user_windows_model(before)
        }),
{
    assert(user_windows_model(after).slots =~= user_windows_model(before).slots.update(slot, slot_model(v)));
    assert(user_windows_model(after) =~~= (UserWindowsModel {
        slots: user_windows_model(before).slots.update(slot, slot_model(v)),
        ..user_windows_model(before)
    }));
}

/// `v` clamped to the `i32` range.
fn clamp_to_i32(v: i64) -> (out: i32)
    ensures
        out == clamp_i32(v as int),
{
    if v < i32::MIN as i64 {
        i32::MIN
    } else if v > i32::MAX as i64 {
        i32::MAX
    } else {
        v as i32
    }
}

/// The width a debug text run covers (see [`text_extent`]).
pub fn debug_text_extent(glyphs: usize, font_size: i32) -> (extent: i32)
    ensures
        extent == text_extent(glyphs as nat, font_size),
{
    let g = glyphs as i32;
    let f: i64 = if font_size < 1 {
        1
    } else {
        font_size as i64
    };
    assert(-0x8000_0000 * 0x7fff_ffff <= g as i64 * f <= 0x7fff_ffff * 0x7fff_ffff) by (nonlinear_arith)
        requires
            -0x8000_0000 <= g <= 0x7fff_ffff,
            1 <= f <= 0x7fff_ffff,
    ;
    let p = clamp_to_i32(g as i64 * f);
    let q = clamp_to_i32(p as i64 + 1);
    if q >= 0 {
        q / 2
    } else {
        let n: i64 = -(q as i64);
        -(n / 2) as i32
    }
}

/// Takes a slot's window out, leaving the slot empty.
fn take_slot(u: &mut NativeUserState, slot: usize) -> (out: Option<NativeDebugWindow>)
    requires
        slot < old(u).debug_windows@.len(),
    ensures
        out == old(u).debug_windows@[slot as int],
        final(u).debug_windows@ == old(u).debug_windows@.update(slot as int, None),
        (NativeUserState { debug_windows: old(u).debug_windows, ..*final(u) }) == *old(u),
{
    let cur = u.debug_windows.remove(slot);
    u.debug_windows.insert(slot, None);
    assert(u.debug_windows@ =~= old(u).debug_windows@.update(slot as int, None));
    cur
}

/// The open window a handle names, taken out of its slot.
fn take_window(u: &mut NativeUserState, handle: i32) -> (out: Option<(usize, NativeDebugWindow)>)
    requires
        old(u).wf(),
    ensures
        match open_window(user_windows_model(*old(u)), handle) {
            Some((slot, w)) => match out {
                Some((s, win)) => s == slot && window_model(win) == w && Some(win) == old(u).debug_windows@[slot]
                    && final(u).debug_windows@ == old(u).debug_windows@.update(slot, None),
                None => false,
            },
            None => out is None && *final(u) == *old(u),
        },
        (NativeUserState { debug_windows: old(u).debug_windows, ..*final(u) }) == *old(u),
        final(u).debug_windows@.len() == MAX_DEBUG_WINDOWS,
{
    proof {
        u.lemma_wf_slot_count();
    }
    match NativeUserState::debug_slot(handle) {
        None => None,
        Some(slot) => {
            if u.debug_windows[slot].is_none() {
                return None;
            }
            let cur = take_slot(u, slot);
            match cur {
                Some(w) => Some((slot, w)),
                None => None,
            }
        },
    }
}

/// Puts a window back into its slot.
fn put_window(u: &mut NativeUserState, slot: usize, w: NativeDebugWindow)
    requires
        slot < old(u).debug_windows@.len(),
    ensures
        final(u).debug_windows@ == old(u).debug_windows@.update(slot as int, Some(w)),
        (NativeUserState { debug_windows: old(u).debug_windows, ..*final(u) }) == *old(u),
{
    u.debug_windows.set(slot, Some(w));
}


/// A window change applied in place: the window taken out, changed and put
/// back, as a model change.
proof fn lemma_window_put(
    before: NativeUserState,
    mid: NativeUserState,
    after: NativeUserState,
    slot: int,
    old_w: NativeDebugWindow,
    new_w: NativeDebugWindow,
)
    requires
        0 <= slot < before.debug_windows@.len(),
        before.debug_windows@[slot] == Some(old_w),
        mid.debug_windows@ == before.debug_windows@.update(slot, None),
        after.debug_windows@ == mid.debug_windows@.update(slot, Some(new_w)),
        after.edit == before.edit,
        after.text@ == before.text@,
    ensures
        user_windows_model(after) == with_slot(user_windows_model(before), slot, window_model(new_w)),
{
    assert(after.debug_windows@ =~= before.debug_windows@.update(slot, Some(new_w)));
    lemma_slot_set(before, after, slot, Some(new_w));
}

/// Runs a debug-window call (see [`debug_window_call_spec`]).
#[verifier::rlimit(40)]
fn debug_window_call(u: &mut NativeUserState, id: u8, args: &mut Vec<NativeValue>) -> (out: Option<
    Result<NativeValue, UserCallError>,
>)
    requires
        old(u).wf(),
    ensures
        final(u).wf(),
        same_outside_windows(*old(u), *final(u)),
        final(u).edit == old(u).edit,
        final(u).text@ == old(u).text@,
        user_call_done(
            *old(u),
            *final(u),
            final(args)@,
            debug_window_call_spec(user_windows_model(*old(u)), id, old(args)@),
            out,
            old(args)@,
        ),
{
    let ghost u0 = *u;
    let ghost m0 = user_windows_model(*u);
    proof {
        u.lemma_wf_slot_count();
    }
    if id == 0x10 {
        let height = pop_int_value(args, 0);
        let width = pop_int_value(args, 0);
        let y = pop_int_value(args, 0);
        let x = pop_int_value(args, 0);
        let title = pop_string_value(args);
        if !(32 <= width && width <= 2048) || !(32 <= height && height <= 2048) {
            return Some(Err(UserCallError::InvalidDebugWindowSize { width, height }));
        }
        let ghost t = title@;
        let handle = u.allocate_debug_window(title, x, y, width, height);
        proof {
            u0.lemma_debug_slots_view();
            u.lemma_debug_slots_view();
            u.lemma_wf_slot_count();
            assert forall|j: int| 0 <= j < m0.slots.len() implies (#[trigger] m0.slots[j] is Some) == (
                u0.debug_slots()[j] is Some) by {}
            lemma_same_free_slot(u0.debug_slots(), m0.slots, 0);
            match first_free_slot(u0.debug_slots(), 0) {
                Some(slot) => {
                    let w = u.debug_windows@[slot]->0;
                    lemma_slot_set(u0, *u, slot, Some(w));
                    assert(window_model(w).text_draws =~= Seq::<TextDrawModel>::empty());
                    assert(window_model(w) =~~= DebugWindowModel {
                        title: t,
                        x,
                        y,
                        width,
                        height,
                        visible: true,
                        clear_color: 0,
                        bitmap_draws: Seq::empty(),
                        text_draws: Seq::empty(),
                        close_message: Seq::empty(),
                    });
                },
                None => {
                    assert(u.debug_windows@ == u0.debug_windows@);
                    assert(user_windows_model(*u) =~~= m0);
                },
            }
            NativeUserState::lemma_wf_keeps(u0, *u);
        }
        return Some(
            Ok(
                NativeValue::Int(
                    match handle {
                        Some(h) => h,
                        None => 0,
                    },
                ),
            ),
        );
    } else if id == 0x11 {
        let handle = pop_int_value(args, 0);
        match NativeUserState::debug_slot(handle) {
            None => {
                return Some(Err(UserCallError::InvalidDebugHandle { call: 0x11, handle }));
            },
            Some(slot) => {
                let _ = take_slot(u, slot);
                proof {
                    lemma_slot_set(u0, *u, slot as int, None);
                    NativeUserState::lemma_wf_keeps(u0, *u);
                }
                return Some(Ok(NativeValue::Void));
            },
        }
    } else if id == 0x17 {
        let handle = pop_int_value(args, 0);
        let found = take_window(u, handle);
        match found {
            None => {
                return Some(Err(UserCallError::InvalidDebugHandle { call: 0x17, handle }));
            },
            Some((slot, w)) => {
                let (x, y) = (w.x, w.y);
                let ghost mid = *u;
                put_window(u, slot, w);
                proof {
                    lemma_window_put(u0, mid, *u, slot as int, w, w);
                    assert(u.debug_windows@ =~= u0.debug_windows@);
                    assert(user_windows_model(*u) =~~= m0);
                    NativeUserState::lemma_wf_keeps(u0, *u);
                }
                args.push(NativeValue::Int(x));
                return Some(Ok(NativeValue::Int(y)));
            },
        }
    } else if id == 0x14 || id == 0x15 || id == 0x16 || id == 0x18 || id == 0x19 || id == 0x1A || id == 0x1C {
        return window_change_call(u, id, args);
    }
    None
}

/// The debug-window calls that change one open window.
#[verifier::rlimit(60)]
fn window_change_call(u: &mut NativeUserState, id: u8, args: &mut Vec<NativeValue>) -> (out: Option<
    Result<NativeValue, UserCallError>,
>)
    requires
        old(u).wf(),
        id == 0x14 || id == 0x15 || id == 0x16 || id == 0x18 || id == 0x19 || id == 0x1A || id == 0x1C,
    ensures
        final(u).wf(),
        same_outside_windows(*old(u), *final(u)),
        final(u).edit == old(u).edit,
        final(u).text@ == old(u).text@,
        user_call_done(
            *old(u),
            *final(u),
            final(args)@,
            debug_window_call_spec(user_windows_model(*old(u)), id, old(args)@),
            out,
            old(args)@,
        ),
{
    let ghost u0 = *u;
    let ghost m0 = user_windows_model(*u);
    proof {
        u.lemma_wf_slot_count();
    }
    // Pop the arguments of the call, check what does not depend on the
    // window, then change the window.
    let mut visible = false;
    let mut title = String::new();
    let mut x: i32 = 0;
    let mut y: i32 = 0;
    let mut color: i32 = 0;
    let mut bitmap_draw: Option<NativeDebugBitmapDraw> = None;
    let mut text_draw: Option<NativeDebugTextDraw> = None;
    let mut extent: i32 = 0;
    if id == 0x14 {
        visible = pop_int_value(args, 0) != 0;
    } else if id == 0x15 || id == 0x1C {
        title = pop_string_value(args);
    } else if id == 0x16 {
        y = pop_int_value(args, 0);
        x = pop_int_value(args, 0);
    } else if id == 0x18 {
        color = pop_int_value(args, 0);
    } else if id == 0x19 {
        let alpha = pop_int_value(args, 0);
        let blend_mode = pop_int_value(args, 0);
        let bitmap = pop_int_value(args, 0);
        let by = pop_int_value(args, 0);
        let bx = pop_int_value(args, 0);
        if !(0 <= bitmap && bitmap < 0x4000) || !is_debug_blend_mode(blend_mode) || !(0 <= alpha && alpha <= 256) {
            let _ = pop_int_value(args, 0);
            return Some(Err(UserCallError::InvalidDebugBitmap));
        }
        bitmap_draw = Some(NativeDebugBitmapDraw { x: bx, y: by, bitmap, blend_mode, alpha });
    } else {
        let alpha = pop_int_value(args, 0);
        let blend_mode = pop_int_value(args, 0);
        let text_color = pop_int_value(args, 0);
        let style = pop_int_value(args, 0);
        let font_size = pop_int_value(args, 0);
        let font_id = pop_int_value(args, 0);
        let text = pop_string_value(args);
        let ty = pop_int_value(args, 0);
        let tx = pop_int_value(args, 0);
        if !is_debug_blend_mode(blend_mode) || !(0 <= alpha && alpha <= 256) {
            let _ = pop_int_value(args, 0);
            return Some(Err(UserCallError::InvalidDebugText));
        }
        extent = debug_text_extent(chars_of(text.as_str()).len(), font_size);
        text_draw = Some(
            NativeDebugTextDraw {
                x: tx,
                y: ty,
                text,
                font_id,
                font_size,
                style,
                color: text_color,
                blend_mode,
                alpha,
                extent,
            },
        );
    }
    let handle = pop_int_value(args, 0);
    let found = take_window(u, handle);
    match found {
        None => Some(Err(UserCallError::InvalidDebugHandle { call: id, handle })),
        Some((slot, w)) => {
            let ghost mid = *u;
            let ghost w0 = w;
            let mut w = w;
            if id == 0x14 {
                w.visible = visible;
            } else if id == 0x15 {
                w.title = title;
            } else if id == 0x1C {
                w.close_message = title;
            } else if id == 0x16 {
                w.x = x;
                w.y = y;
            } else if id == 0x18 {
                w.clear_color = color;
                w.bitmap_draws = Vec::new();
                w.text_draws = Vec::new();
            } else if id == 0x19 {
                if let Some(d) = bitmap_draw {
                    w.bitmap_draws.push(d);
                }
            } else {
                if let Some(d) = text_draw {
                    w.text_draws.push(d);
                }
            }
            let ghost w1 = w;
            put_window(u, slot, w);
            proof {
                lemma_window_put(u0, mid, *u, slot as int, w0, w1);
                if id == 0x1A {
                    assert(window_model(w1).text_draws =~= window_model(w0).text_draws.push(
                        text_draw_model(text_draw->0),
                    ));
                }
                if id == 0x18 {
                    assert(window_model(w1).text_draws =~= Seq::<TextDrawModel>::empty());
                }
                assert(window_model(w1) =~~= match debug_window_call_spec(m0, id, old(args)@) {
                    Some((_, Ok((m, _)))) => m.slots[slot as int]->0,
                    _ => window_model(w1),
                });
                NativeUserState::lemma_wf_keeps(u0, *u);
            }
            Some(
                Ok(
                    if id == 0x1A {
                        NativeValue::Int(extent)
                    } else {
                        NativeValue::Void
                    },
                ),
            )
        },
    }
}

/// Exchanges the red and blue bytes of a `0x00BBGGRR` colour.
pub fn swap_red_blue_bytes(v: i32) -> (out: i32)
    ensures
        out == swap_red_blue(v),
{
    let c = v as u32;
    ((((c & 0xFF) << 16u32) | (c & 0xFF00)) | ((c & 0xFF_0000) >> 16u32)) as i32
}

/// Runs an edit-box call (see [`edit_call_spec`]).
#[verifier::rlimit(60)]
fn edit_call(
    u: &mut NativeUserState,
    screen_width: i32,
    screen_height: i32,
    id: u8,
    args: &mut Vec<NativeValue>,
) -> (out: Option<Result<NativeValue, UserCallError>>)
    requires
        old(u).wf(),
    ensures
        final(u).wf(),
        same_outside_windows(*old(u), *final(u)),
        final(u).debug_windows == old(u).debug_windows,
        user_call_done(
            *old(u),
            *final(u),
            final(args)@,
            edit_call_spec(user_windows_model(*old(u)), screen_width, screen_height, id, old(args)@),
            out,
            old(args)@,
        ),
{
    let ghost u0 = *u;
    let out = if id == 0x20 {
        let focus = pop_int_value(args, 0);
        let max_chars = pop_int_value(args, 0);
        let font_size = pop_int_value(args, 0);
        let font_id = pop_int_value(args, 0);
        let height = pop_int_value(args, 0);
        let width = pop_int_value(args, 0);
        let y = pop_int_value(args, 0);
        let x = pop_int_value(args, 0);
        if width < 8 || height < 8 || x < 0 || y < 0 || clamp_to_i32(x as i64 + width as i64) > screen_width
            || clamp_to_i32(y as i64 + height as i64) > screen_height || !(8 <= font_size && font_size <= 64)
            || !(1 <= max_chars && max_chars <= 256) {
            Some(Err(UserCallError::InvalidEditControl))
        } else {
            u.edit.active = true;
            u.edit.visible = true;
            u.edit.x = x;
            u.edit.y = y;
            u.edit.width = width;
            u.edit.height = height;
            u.edit.font_id = font_id;
            u.edit.font_size = font_size;
            u.edit.max_chars = max_chars as usize;
            u.edit.focused = focus != 0;
            Some(Ok(NativeValue::Void))
        }
    } else if id == 0x21 {
        let was_active = u.edit.active;
        u.edit.active = false;
        u.edit.visible = false;
        u.edit.focused = false;
        Some(Ok(NativeValue::Int(if was_active { 1 } else { 0 })))
    } else if id == 0x22 {
        let scale = pop_int_value(args, 0);
        if 25 <= scale && scale <= 200 {
            u.edit.font_scale = scale;
            Some(Ok(NativeValue::Int(1)))
        } else {
            Some(Ok(NativeValue::Int(0)))
        }
    } else if id == 0x23 {
        Some(Ok(NativeValue::Int(if u.edit.active { 1 } else { 0 })))
    } else if id == 0x24 {
        u.edit.visible = pop_int_value(args, 0) != 0;
        Some(Ok(NativeValue::Void))
    } else if id == 0x25 {
        let v = pop_int_value(args, 0);
        u.edit.color = swap_red_blue_bytes(v);
        Some(Ok(NativeValue::Void))
    } else if id == 0x26 {
        let text = pop_string_value(args);
        let limit: usize = if u.edit.max_chars < MAX_EDIT_TEXT_BYTES {
            if u.edit.max_chars < 1 {
                1
            } else {
                u.edit.max_chars
            }
        } else {
            MAX_EDIT_TEXT_BYTES
        };
        u.text = truncate_shift_jis(text.as_str(), limit);
        Some(Ok(NativeValue::Void))
    } else if id == 0x27 {
        let _ = pop_any_value(args);
        let n = shift_jis_len(u.text.as_str());
        let bytes: i32 = if n < MAX_EDIT_TEXT_BYTES {
            n as i32
        } else {
            MAX_EDIT_TEXT_BYTES as i32
        };
        Some(Ok(NativeValue::Int(bytes)))
    } else if id == 0x28 {
        u.edit.hide_on_enter = pop_int_value(args, 0) != 0;
        Some(Ok(NativeValue::Void))
    } else if id == 0x29 {
        u.edit.printable_input_enabled = pop_int_value(args, 0) != 0;
        Some(Ok(NativeValue::Void))
    } else {
        None
    };
    proof {
        u0.lemma_wf_slot_count();
        NativeUserState::lemma_wf_keeps(u0, *u);
        assert(user_windows_model(*u).slots =~= user_windows_model(u0).slots);
    }
    out
}


/// The user-group calls on the screen shake, modeless dialogs and fonts.
pub open spec fn user_state_call(id: u8) -> bool {
    id == 0x08 || (0xA0 <= id <= 0xA3) || id == 0xC0 || id == 0xC1
}

/// The shake damping a call passes leaves room for the damping step
/// (`100 - damping` fits in an `i32`).
pub open spec fn shake_damping_fits(args: Seq<NativeValue>) -> bool {
    match int_at_depth(args, 2) {
        Some(d) => 100 - d <= i32::MAX,
        None => true,
    }
}

/// A shake, modeless-dialog or font call of the user group: the
/// arguments it leaves, its result or error, and the shake, dialogs or
/// fonts after it, everything else unchanged.
pub open spec fn user_state_call_post(
    u: NativeUserState,
    u2: NativeUserState,
    id: u8,
    args: Seq<NativeValue>,
    args2: Seq<NativeValue>,
    out: Result<NativeValue, UserCallError>,
) -> bool {
    let value = match out {
        Ok(v) => v,
        Err(_) => NativeValue::Void,
    };
    let same_but_dialogs = (NativeUserState { dialog_handles: u.dialog_handles, dialogs: u.dialogs, ..u2 }) == u
        && u2.next_dialog_view() == u.next_dialog_view();
    if id == 0x08 {
        let (a1, lock) = pop0(args);
        let (a2, updates_per_second) = pop0(a1);
        let (a3, damping) = pop0(a2);
        let (a4, cycles) = pop0(a3);
        let (a5, ticks) = pop0(a4);
        let (a6, amplitude) = pop0(a5);
        let (a7, mode) = pop0(a6);
        &&& args2 == a7
        &&& if NativeScreenShakeState::accepts(mode, ticks, cycles, updates_per_second) {
            out == Ok::<NativeValue, UserCallError>(NativeValue::Void) && u2 == (NativeUserState {
                screen_shake: u.screen_shake.configured(
                    mode,
                    amplitude,
                    ticks,
                    cycles,
                    damping,
                    updates_per_second,
                    lock != 0,
                ),
                ..u
            })
        } else {
            out == Err::<NativeValue, UserCallError>(UserCallError::InvalidShakeConfiguration) && u2 == u
        }
    } else if out is Err {
        false
    } else if id == 0xA0 || id == 0xA3 {
        let n: nat = if id == 0xA0 {
            3
        } else {
            2
        };
        args2 == source_ints_spec(args, n).0 && u2 == u && value == NativeValue::Int(if id == 0xA0 { 0i32 } else { -2i32 })
    } else if id == 0xA1 {
        let (a1, handle) = pop0(args);
        &&& args2 == a1
        &&& value == NativeValue::Int(if u.dialog_map().contains_key(handle) { 1 } else { 0 })
        &&& u2.dialog_map() == u.dialog_map().remove(handle)
        &&& same_but_dialogs
    } else if id == 0xA2 {
        let (a1, visible) = pop0(args);
        let (a2, handle) = pop0(a1);
        let known = u.dialog_map().contains_key(handle);
        &&& args2 == a2
        &&& value == NativeValue::Int(if known { 1 } else { 0 })
        &&& known ==> u2.dialog_map() == u.dialog_map().insert(
            handle,
            NativeModelessDialog { visible: visible != 0, ..u.dialog_map()[handle] },
        )
        &&& !known ==> u2.dialog_map() == u.dialog_map()
        &&& same_but_dialogs
    } else {
        let (a1, option) = if id == 0xC1 {
            pop0(args)
        } else {
            (args, -1i32)
        };
        let (a2, name) = pop_str_spec(a1);
        let (fonts, next, font_id) = font_interned(u.font_map(), u.next_font_view(), name, option);
        &&& args2 == a2
        &&& value == NativeValue::Int(font_id)
        &&& u2.font_map() == fonts
        &&& u2.next_font_view() == next
        &&& (NativeUserState { fonts: u.fonts, font_names: u.font_names, next_font_id: u.next_font_id, ..u2 }) == u
    }
}

/// Runs a shake, modeless-dialog or font call of the user group.
fn user_state_call_run(u: &mut NativeUserState, id: u8, args: &mut Vec<NativeValue>) -> (out: Result<
    NativeValue,
    UserCallError,
>)
    requires
        old(u).wf(),
        user_state_call(id),
        id == 0x08 ==> shake_damping_fits(old(args)@),
    ensures
        final(u).wf(),
        user_state_call_post(*old(u), *final(u), id, old(args)@, final(args)@, out),
{
    let ghost u0 = *u;
    if id == 0x08 {
        let lock = pop_int_value(args, 0) != 0;
        let updates_per_second = pop_int_value(args, 0);
        let damping = pop_int_value(args, 0);
        let cycles = pop_int_value(args, 0);
        let ticks = pop_int_value(args, 0);
        let amplitude = pop_int_value(args, 0);
        let mode = pop_int_value(args, 0);
        if !u.screen_shake.configure(mode, amplitude, ticks, cycles, damping, updates_per_second, lock) {
            return Err(UserCallError::InvalidShakeConfiguration);
        }
        proof {
            assert(u.screen_shake.updates_per_cycle >= 1) by (nonlinear_arith)
                requires
                    u.screen_shake.updates_per_cycle == (updates_per_second as int / ticks as int) as u32,
                    updates_per_second >= ticks >= 1,
            {
                assert(updates_per_second as int / ticks as int >= 1);
            }
            NativeUserState::lemma_wf_with_shake(u0, *u);
        }
        return Ok(NativeValue::Void);
    }
    Ok(if id == 0xA0 || id == 0xA3 {
        let _ = pop_source_ints(args, if id == 0xA0 { 3 } else { 2 });
        NativeValue::Int(if id == 0xA0 { 0 } else { -2 })
    } else if id == 0xA1 {
        let handle = pop_int_value(args, 0);
        NativeValue::Int(if u.close_modeless_dialog(handle) { 1 } else { 0 })
    } else if id == 0xA2 {
        let visible = pop_int_value(args, 0) != 0;
        let handle = pop_int_value(args, 0);
        NativeValue::Int(if u.set_modeless_dialog_visible(handle, visible) { 1 } else { 0 })
    } else {
        let option = if id == 0xC1 {
            pop_int_value(args, 0)
        } else {
            -1
        };
        let name = pop_string_value(args);
        NativeValue::Int(u.intern_font(name, option))
    })
}

impl RuntimeTraceApi {
    /// Runs a call of the user group (`0xB0`) on the debug windows, the
    /// edit box, the screen shake, the modeless dialogs or the fonts: pops its arguments
    /// (missing integers read as 0, missing strings as empty), changes that
    /// state, and returns the call's result, or the error it is refused with
    /// (see [`user_window_call_spec`] and [`user_state_call_post`]). `None`
    /// for another group or another call of the group: message boxes are
    /// [`Self::dispatch_native_user_message`]'s, the window, cursor and
    /// font-alias calls [`Self::dispatch_native_user_window`]'s; the cursor
    /// state query, font resource files and the wallpaper are the host's.
    pub fn dispatch_native_user(&mut self, group: u8, id: u8, args: &mut Vec<NativeValue>) -> (out: Option<
        Result<NativeValue, UserCallError>,
    >)
        requires
            old(self).wf(),
            group == 0xB0 && id == 0x08 ==> shake_damping_fits(old(args)@),
        ensures
            final(self).wf(),
            final(self).same_outside_user(*old(self)),
            final(self).screen_shake_offset == old(self).screen_shake_offset,
            group == 0xB0 && user_state_call(id) ==> (out matches Some(o) && user_state_call_post(
                old(self).native_user,
                final(self).native_user,
                id,
                old(args)@,
                final(args)@,
                o,
            )),
            !(group == 0xB0 && user_state_call(id)) ==> same_outside_windows(old(self).native_user, final(self).native_user),
            !(group == 0xB0 && user_state_call(id)) ==> user_call_done(
                old(self).native_user,
                final(self).native_user,
                final(args)@,
                user_window_call_spec(
                    user_windows_model(old(self).native_user),
                    old(self).screen_width,
                    old(self).screen_height,
                    group,
                    id,
                    old(args)@,
                ),
                out,
                old(args)@,
            ),
    {
        if group != 0xB0 {
            return None;
        }
        if 0x10 <= id && id <= 0x1C {
            debug_window_call(&mut self.native_user, id, args)
        } else if 0x20 <= id && id <= 0x29 {
            let (w, h) = (self.screen_width, self.screen_height);
            edit_call(&mut self.native_user, w, h, id, args)
        } else if id == 0x08 || (0xA0 <= id && id <= 0xA3) || id == 0xC0 || id == 0xC1 {
            Some(user_state_call_run(&mut self.native_user, id, args))
        } else {
            None
        }
    }
}

/// A message box the host shows: a message, or a question whose answer (1
/// for yes or OK, 0 otherwise) becomes the call's result.
#[derive(Debug)]
pub enum UserDialogRequest {
    Message { title: String, message: String },
    Question { title: String, message: String, ok_cancel: bool, topmost: bool },
}

/// A message box request with its texts as characters.
pub enum UserDialogRequestModel {
    Message { title: Seq<char>, message: Seq<char> },
    Question { title: Seq<char>, message: Seq<char>, ok_cancel: bool, topmost: bool },
}

impl View for UserDialogRequest {
    type V = UserDialogRequestModel;

    open spec fn view(&self) -> UserDialogRequestModel {
        match self {
            UserDialogRequest::Message { title, message } => UserDialogRequestModel::Message {
                title: title@,
                message: message@,
            },
            UserDialogRequest::Question { title, message, ok_cancel, topmost } => UserDialogRequestModel::Question {
                title: title@,
                message: message@,
                ok_cancel: *ok_cancel,
                topmost: *topmost,
            },
        }
    }
}

/// The message-box calls of the user group.
pub open spec fn message_call_arity(id: u8) -> Option<nat> {
    if id == 0x84 || id == 0x8C {
        Some(4)
    } else if id == 0x86 {
        Some(5)
    } else if id == 0x8F {
        Some(6)
    } else if id == 0x85 {
        Some(9)
    } else if id == 0x87 {
        Some(12)
    } else {
        None
    }
}

pub open spec fn message_call(id: u8) -> bool {
    (0x80 <= id <= 0x83) || message_call_arity(id) is Some
}

/// A value as the text a dialog request records: a string as it is, an
/// integer in decimal, anything else empty.
pub open spec fn value_text(v: NativeValue) -> Seq<char> {
    match v {
        NativeValue::Str(s) => s@,
        NativeValue::Int(i) => int_text(i as int),
        NativeValue::Void => Seq::empty(),
    }
}

/// Up to `n` values popped, top first.
pub open spec fn popped_values(args: Seq<NativeValue>, n: nat) -> Seq<NativeValue> {
    if args.len() >= n {
        args.skip(args.len() - n).reverse()
    } else {
        args.reverse()
    }
}

/// The scripted answer waiting for the next dialog, or 0.
pub open spec fn scripted_answer(u: NativeUserState) -> i32 {
    match u.next_dialog_result {
        Some(r) => r,
        None => 0,
    }
}

/// The dialog history after one more request with these argument texts,
/// the scripted answer taken.
pub open spec fn dialog_recorded(u: NativeUserState, u2: NativeUserState, selector: u16, texts: Seq<Seq<char>>) -> bool {
    &&& u2.next_dialog_result is None
    &&& exists|r: NativeDialogRequest|
        #[trigger] keep_last(u.dialog_history@.push(r), MAX_DIALOG_HISTORY as nat) == u2.dialog_history@
            && r.selector == selector && r.arguments@.map_values(|a: String| a@) == texts
}

/// A message-box call of the user group: the runtime after it, the
/// arguments it leaves, its result and the box the host is to show.
pub open spec fn message_call_post(
    rt: RuntimeTraceApi,
    rt2: RuntimeTraceApi,
    id: u8,
    args: Seq<NativeValue>,
    args2: Seq<NativeValue>,
    value: NativeValue,
    req: Option<UserDialogRequestModel>,
) -> bool {
    let u = rt.native_user;
    let u2 = rt2.native_user;
    let answer = scripted_answer(u);
    let title = u.message_box_title@;
    let kept = (NativeUserState {
        dialog_history: u.dialog_history,
        next_dialog_result: u.next_dialog_result,
        blocking_message: u.blocking_message,
        ..u2
    }) == u;
    &&& (RuntimeTraceApi { native_user: rt.native_user, frame_yield_requested: rt.frame_yield_requested, ..rt2 }) == rt
    &&& if id == 0x83 {
        let (a, t) = pop_str_spec(args);
        &&& args2 == a
        &&& u2.message_box_title@ == t
        &&& (NativeUserState { message_box_title: u.message_box_title, ..u2 }) == u
        &&& rt2.frame_yield_requested == rt.frame_yield_requested
        &&& value == NativeValue::Void && req is None
    } else if id == 0x80 {
        let (a, message) = pop_str_spec(args);
        &&& args2 == a
        &&& kept
        &&& dialog_recorded(u, u2, 0x80, seq![message])
        &&& value == NativeValue::Void
        &&& if rt.native_dialog_presentation {
            &&& u2.blocking_message == u.blocking_message
            &&& rt2.frame_yield_requested == rt.frame_yield_requested
            &&& req == Some(UserDialogRequestModel::Message { title, message })
        } else {
            &&& u2.blocking_view() == Some((title, message))
            &&& rt2.frame_yield_requested
            &&& req is None
        }
    } else if id == 0x81 || id == 0x82 {
        let (a1, topmost) = pop0(args);
        let (a2, kind) = if id == 0x82 {
            pop0(a1)
        } else {
            (a1, 0i32)
        };
        let (a3, message) = pop_str_spec(a2);
        let texts = if id == 0x82 {
            seq![message, int_text(kind as int), int_text(topmost as int)]
        } else {
            seq![message, int_text(topmost as int)]
        };
        let ok_cancel = id == 0x82 && kind == 1;
        &&& args2 == a3
        &&& kept && u2.blocking_message == u.blocking_message
        &&& rt2.frame_yield_requested == rt.frame_yield_requested
        &&& dialog_recorded(u, u2, id as u16, texts)
        &&& if answer != 0 {
            value == NativeValue::Int(if answer == (if ok_cancel { 1i32 } else { 6i32 }) { 1 } else { 0 }) && req is None
        } else {
            value == NativeValue::Void && req == Some(
                UserDialogRequestModel::Question { title, message, ok_cancel, topmost: topmost != 0 },
            )
        }
    } else {
        let n = message_call_arity(id)->0;
        &&& args2 == source_ints_spec(args, n).0
        &&& kept && u2.blocking_message == u.blocking_message
        &&& rt2.frame_yield_requested == rt.frame_yield_requested
        &&& dialog_recorded(u, u2, id as u16, popped_values(args, n).map_values(|v: NativeValue| value_text(v)))
        &&& value == NativeValue::Int(answer)
        &&& req is None
    }
}

/// A value as the text a dialog request records (see [`value_text`]).
pub fn value_to_text(v: &NativeValue) -> (t: String)
    ensures
        t@ == value_text(*v),
{
    match v {
        NativeValue::Str(s) => s.clone(),
        NativeValue::Int(i) => int_text_string(*i),
        NativeValue::Void => String::new(),
    }
}

/// Pops up to `n` values as dialog argument texts, top first.
fn pop_dialog_texts(args: &mut Vec<NativeValue>, n: usize) -> (texts: Vec<String>)
    ensures
        final(args)@ == source_ints_spec(old(args)@, n as nat).0,
        texts@.map_values(|a: String| a@) == popped_values(old(args)@, n as nat).map_values(
            |v: NativeValue| value_text(v),
        ),
{
    let ghost a0 = args@;
    let ghost target = popped_values(a0, n as nat).map_values(|v: NativeValue| value_text(v));
    let mut texts: Vec<String> = Vec::new();
    let mut k: usize = 0;
    let len = args.len();
    while k < n && args.len() > 0
        invariant
            k <= n,
            len == a0.len(),
            args@.len() + k == len,
            args@ == a0.take(args@.len() as int),
            texts@.len() == k,
            forall|j: int| 0 <= j < k ==> #[trigger] texts@[j]@ == value_text(a0[len - 1 - j]),
        decreases n - k,
    {
        let v = args.pop().unwrap();
        texts.push(value_to_text(&v));
        k += 1;
    }
    assert(texts@.map_values(|a: String| a@) =~= target);
    if len >= n {
        assert(args@ =~= source_ints_spec(a0, n as nat).0);
    } else {
        assert(args@ =~= Seq::<NativeValue>::empty());
    }
    texts
}

impl RuntimeTraceApi {
    /// Runs a message-box call of the user group (`0xB0`, `0x80`..`0x8F`):
    /// records the dialog request, takes the scripted answer when one is
    /// waiting, and otherwise shows the message as a blocking message (the
    /// frame yields) or hands the box to the host's native dialogs (see
    /// [`message_call_post`]); `None` for another group or call.
    pub fn dispatch_native_user_message(&mut self, group: u8, id: u8, args: &mut Vec<NativeValue>) -> (out: Option<
        (NativeValue, Option<UserDialogRequest>),
    >)
        requires
            old(self).wf(),
        ensures
            final(self).wf(),
            match out {
                None => !(group == 0xB0 && message_call(id)) && *final(self) == *old(self) && final(args)@ == old(
                    args,
                )@,
                Some((v, r)) => group == 0xB0 && message_call(id) && message_call_post(
                    *old(self),
                    *final(self),
                    id,
                    old(args)@,
                    final(args)@,
                    v,
                    match r {
                        Some(q) => Some(q@),
                        None => None,
                    },
                ),
            },
    {
        if group != 0xB0 {
            return None;
        }
        let ghost rt0 = *self;
        if id == 0x83 {
            self.native_user.message_box_title = pop_string_value(args);
            proof {
                rt0.native_user.lemma_wf_slot_count();
                NativeUserState::lemma_wf_keeps(rt0.native_user, self.native_user);
            }
            return Some((NativeValue::Void, None));
        }
        let answer = match self.native_user.next_dialog_result {
            Some(r) => r,
            None => 0,
        };
        if id == 0x80 {
            let message = pop_string_value(args);
            let arguments = vec![message.clone()];
            let ghost texts = seq![message@];
            assert(arguments@.map_values(|a: String| a@) =~= texts);
            let _ = self.native_user.record_dialog(0x80, arguments);
            let title = self.native_user.message_box_title.clone();
            if self.native_dialog_presentation {
                return Some((NativeValue::Void, Some(UserDialogRequest::Message { title, message })));
            }
            self.native_user.begin_blocking_message(title, message);
            self.frame_yield_requested = true;
            return Some((NativeValue::Void, None));
        }
        if id == 0x81 || id == 0x82 {
            let topmost = pop_int_value(args, 0);
            let kind = if id == 0x82 {
                pop_int_value(args, 0)
            } else {
                0
            };
            let message = pop_string_value(args);
            let mut arguments = vec![message.clone()];
            if id == 0x82 {
                arguments.push(int_text_string(kind));
            }
            arguments.push(int_text_string(topmost));
            proof {
                if id == 0x82 {
                    assert(arguments@.map_values(|a: String| a@) =~= seq![
                        message@,
                        int_text(kind as int),
                        int_text(topmost as int),
                    ]);
                } else {
                    assert(arguments@.map_values(|a: String| a@) =~= seq![message@, int_text(topmost as int)]);
                }
            }
            let _ = self.native_user.record_dialog(id as u16, arguments);
            let ok_cancel = id == 0x82 && kind == 1;
            if answer != 0 {
                let expected: i32 = if ok_cancel {
                    1
                } else {
                    6
                };
                return Some((NativeValue::Int(if answer == expected { 1 } else { 0 }), None));
            }
            let title = self.native_user.message_box_title.clone();
            return Some(
                (
                    NativeValue::Void,
                    Some(UserDialogRequest::Question { title, message, ok_cancel, topmost: topmost != 0 }),
                ),
            );
        }
        let n: usize = if id == 0x84 || id == 0x8C {
            4
        } else if id == 0x86 {
            5
        } else if id == 0x8F {
            6
        } else if id == 0x85 {
            9
        } else if id == 0x87 {
            12
        } else {
            return None;
        };
        let arguments = pop_dialog_texts(args, n);
        let result = self.native_user.record_dialog(id as u16, arguments);
        Some((NativeValue::Int(result), None))
    }
}

/// Host work a window, cursor or font-alias call of the user group leaves:
/// placing a bitmap surface on the main window, the cursor binding's
/// effect on the system cursor and the bound object, and a cursor idle
/// timeout.
#[derive(Debug, Clone, Copy)]
pub enum UserHostRequest {
    /// Place the surface of `resource` at (x, y) and enable it, when the
    /// host holds that resource or surface.
    PlaceWindowBitmap { resource: i32, x: i32, y: i32 },
    /// Show or hide the system cursor; for a bound object, show or hide it
    /// when an idle timeout runs, and move it to the pointer position.
    CursorBinding { cursor_visible: bool, object_enabled: Option<bool>, object_position: Option<(i32, i32, i32)> },
    /// Apply a cursor idle timeout of this many milliseconds.
    CursorIdleTimeout(i32),
}

/// The window, cursor and font-alias calls of the user group.
pub open spec fn user_window_call(id: u8) -> bool {
    id == 0x00 || (0x02 <= id <= 0x05) || id == 0xC4 || id == 0xC6 || id == 0xC7
}

/// The integer `depth` below the top, 0 when it is not one.
pub open spec fn int_or_zero(args: Seq<NativeValue>, depth: int) -> i32 {
    match int_at_depth(args, depth) {
        Some(v) => v,
        None => 0,
    }
}

/// `v` if positive, else 1.
pub open spec fn at_least_one_i32(v: i32) -> int {
    if v < 1 {
        1
    } else {
        v as int
    }
}

/// What the window and cursor calls need to stay within `i32`: centring
/// subtracts the window size from the screen size, and a bound cursor
/// object is placed at the pointer plus its offsets.
pub open spec fn user_window_call_fits(rt: RuntimeTraceApi, id: u8, args: Seq<NativeValue>) -> bool {
    let u = rt.native_user;
    &&& id == 0x02 && u.window_mode == 0 ==> rt.screen_width - at_least_one_i32(u.window_surface_width) >= i32::MIN
        && rt.screen_height - at_least_one_i32(u.window_surface_height) >= i32::MIN
    &&& id == 0x04 && int_or_zero(args, 2) != 0 ==> (rt.mouse_pos matches Some(p) ==> i32::MIN <= p.0
        + int_or_zero(args, 1) <= i32::MAX && i32::MIN <= p.1 + int_or_zero(args, 0) <= i32::MAX)
}

/// Whether some registered font resource name ends with `name`.
pub open spec fn resource_ends_with(resources: Seq<Vec<char>>, name: Seq<char>) -> bool {
    exists|i: int| 0 <= i < resources.len() && ends_with(#[trigger] resources[i]@, name)
}

/// A window, cursor or font-alias call of the user group: the runtime
/// after it, the arguments it leaves, its result or error and the host
/// work.
pub open spec fn user_window_call_post(
    rt: RuntimeTraceApi,
    rt2: RuntimeTraceApi,
    id: u8,
    args: Seq<NativeValue>,
    args2: Seq<NativeValue>,
    out: Result<(NativeValue, Option<UserHostRequest>), UserCallError>,
) -> bool {
    let u = rt.native_user;
    let u2 = rt2.native_user;
    let same_offset = rt2.screen_shake_offset == rt.screen_shake_offset;
    &&& rt2.same_outside_user(rt)
    &&& if id == 0x00 {
        let (a1, resource) = pop0(args);
        let (a2, y) = pop0(a1);
        let (a3, x) = pop0(a2);
        &&& args2 == a3 && same_offset
        &&& if 0 <= resource < 0x4000 {
            &&& u2 == (NativeUserState { last_window_bitmap_draw: Some((x, y, resource)), ..u })
            &&& out == Ok::<(NativeValue, Option<UserHostRequest>), UserCallError>(
                (NativeValue::Void, Some(UserHostRequest::PlaceWindowBitmap { resource, x, y })),
            )
        } else {
            u2 == u && out == Err::<(NativeValue, Option<UserHostRequest>), UserCallError>(
                UserCallError::InvalidGraphResource(resource),
            )
        }
    } else if id == 0x02 {
        &&& args2 == args && same_offset
        &&& if u.window_mode != 0 {
            u2 == u && out == Ok::<(NativeValue, Option<UserHostRequest>), UserCallError>((NativeValue::Int(0), None))
        } else {
            let dx = rt.screen_width - at_least_one_i32(u.window_surface_width);
            let dy = rt.screen_height - at_least_one_i32(u.window_surface_height);
            let x = (if dx > 0 { dx } else { 0 }) / 2;
            let y = (if dy > 0 { dy } else { 0 }) / 2;
            &&& u2 == (NativeUserState { pending_window_position: Some((x as i32, y as i32)), ..u })
            &&& out == Ok::<(NativeValue, Option<UserHostRequest>), UserCallError>((NativeValue::Int(1), None))
        }
    } else if id == 0x03 {
        let (a1, y) = pop0(args);
        let (a2, x) = pop0(a1);
        let valid = u.window_mode == 0 && x >= 0 && y >= 0 && clamp_i32(x + u.window_surface_width)
            <= rt.screen_width && clamp_i32(y + u.window_surface_height) <= rt.screen_height;
        &&& args2 == a2 && same_offset
        &&& u2 == (if valid {
            NativeUserState { pending_window_position: Some((x, y)), ..u }
        } else {
            u
        })
        &&& out == Ok::<(NativeValue, Option<UserHostRequest>), UserCallError>(
            (NativeValue::Int(if valid { 1 } else { 0 }), None),
        )
    } else if id == 0x04 {
        let (a1, y_offset) = pop0(args);
        let (a2, x_offset) = pop0(a1);
        let (a3, object) = pop0(a2);
        let idle = u.cursor_idle_timeout_ms != 0;
        &&& args2 == a3
        &&& if object == 0 {
            &&& same_offset
            &&& u2 == (NativeUserState { cursor_object: None, ..u })
            &&& out == Ok::<(NativeValue, Option<UserHostRequest>), UserCallError>(
                (
                    NativeValue::Void,
                    Some(
                        UserHostRequest::CursorBinding {
                            cursor_visible: if idle { u.cursor_idle_visible } else { true },
                            object_enabled: None,
                            object_position: None,
                        },
                    ),
                ),
            )
        } else {
            let (shake, seed) = u.screen_shake.tick_spec(0, u.crt_rng_seed);
            &&& u2 == (NativeUserState {
                cursor_object: Some((object, x_offset, y_offset)),
                screen_shake: shake,
                crt_rng_seed: seed,
                ..u
            })
            &&& rt2.screen_shake_offset == shake.offset
            &&& out == Ok::<(NativeValue, Option<UserHostRequest>), UserCallError>(
                (
                    NativeValue::Void,
                    Some(
                        UserHostRequest::CursorBinding {
                            cursor_visible: false,
                            object_enabled: if idle { Some(u.cursor_idle_visible) } else { None },
                            object_position: match rt.mouse_pos {
                                Some(p) => Some((object, (p.0 + x_offset) as i32, (p.1 + y_offset) as i32)),
                                None => None,
                            },
                        },
                    ),
                ),
            )
        }
    } else if id == 0x05 {
        let (a1, timeout) = pop0(args);
        &&& args2 == a1 && same_offset && u2 == u
        &&& out == Ok::<(NativeValue, Option<UserHostRequest>), UserCallError>(
            (NativeValue::Void, Some(UserHostRequest::CursorIdleTimeout(timeout))),
        )
    } else if id == 0xC4 {
        let (a1, name) = pop_str_spec(args);
        let aliases = u.font_aliases.view_map();
        let resolved = if aliases.contains_key(name) {
            aliases[name]
        } else {
            name
        };
        let available = u.font_map().contains_key(resolved) || resource_ends_with(u.font_resources@, resolved);
        &&& args2 == a1 && same_offset && u2 == u
        &&& out == Ok::<(NativeValue, Option<UserHostRequest>), UserCallError>(
            (NativeValue::Int(if available { 1 } else { 0 }), None),
        )
    } else if id == 0xC6 {
        let (a1, second) = pop_str_spec(args);
        let (a2, first) = pop_str_spec(a1);
        let aliases = u.font_aliases.view_map();
        let available = first.len() > 0 && second.len() > 0 && (first == second || u.font_map().contains_key(first)
            || u.font_map().contains_key(second) || (aliases.contains_key(first) && aliases[first] == second));
        &&& args2 == a2 && same_offset && u2 == u
        &&& out == Ok::<(NativeValue, Option<UserHostRequest>), UserCallError>(
            (NativeValue::Int(if available { 1 } else { 0 }), None),
        )
    } else {
        let (a1, face) = pop_str_spec(args);
        let (a2, alias) = pop_str_spec(a1);
        &&& args2 == a2 && same_offset
        &&& u2.font_aliases.view_map() == (if alias.len() > 0 {
            u.font_aliases.view_map().insert(alias, face)
        } else {
            u.font_aliases.view_map()
        })
        &&& (NativeUserState { font_aliases: u.font_aliases, ..u2 }) == u
        &&& out == Ok::<(NativeValue, Option<UserHostRequest>), UserCallError>((NativeValue::Void, None))
    }
}

/// Whether some registered font resource name ends with `name`.
fn any_resource_ends_with(resources: &Vec<Vec<char>>, name: &Vec<char>) -> (out: bool)
    ensures
        out == resource_ends_with(resources@, name@),
{
    let mut i: usize = 0;
    while i < resources.len()
        invariant
            i <= resources.len(),
            forall|j: int| 0 <= j < i ==> !ends_with(#[trigger] resources@[j]@, name@),
        decreases resources.len() - i,
    {
        if vec_ends_with(&resources[i], name) {
            return true;
        }
        i += 1;
    }
    false
}

impl RuntimeTraceApi {
    /// Runs a window, cursor or font-alias call of the user group (`0xB0`):
    /// drawing a bitmap to the main window, centring and placing the window,
    /// binding an object to the cursor, the cursor idle timeout, and the
    /// font-alias table and its queries (see [`user_window_call_post`]).
    /// `None` for another group or call; the calls that read files or the
    /// system cursor state are the host's.
    pub fn dispatch_native_user_window(&mut self, group: u8, id: u8, args: &mut Vec<NativeValue>) -> (out: Option<
        Result<(NativeValue, Option<UserHostRequest>), UserCallError>,
    >)
        requires
            old(self).wf(),
            group == 0xB0 ==> user_window_call_fits(*old(self), id, old(args)@),
        ensures
            final(self).wf(),
            match out {
                None => !(group == 0xB0 && user_window_call(id)) && *final(self) == *old(self) && final(args)@ == old(
                    args,
                )@,
                Some(o) => group == 0xB0 && user_window_call(id) && user_window_call_post(
                    *old(self),
                    *final(self),
                    id,
                    old(args)@,
                    final(args)@,
                    o,
                ),
            },
    {
        if group != 0xB0 {
            return None;
        }
        let ghost rt0 = *self;
        proof {
            rt0.native_user.lemma_wf_aliases();
        }
        if id == 0x00 {
            let resource = pop_int_value(args, 0);
            let y = pop_int_value(args, 0);
            let x = pop_int_value(args, 0);
            if !(0 <= resource && resource < 0x4000) {
                return Some(Err(UserCallError::InvalidGraphResource(resource)));
            }
            self.native_user.last_window_bitmap_draw = Some((x, y, resource));
            proof {
                NativeUserState::lemma_wf_window_fields(rt0.native_user, self.native_user);
            }
            Some(Ok((NativeValue::Void, Some(UserHostRequest::PlaceWindowBitmap { resource, x, y }))))
        } else if id == 0x02 {
            if self.native_user.window_mode != 0 {
                return Some(Ok((NativeValue::Int(0), None)));
            }
            let w: i32 = if self.native_user.window_surface_width < 1 {
                1
            } else {
                self.native_user.window_surface_width
            };
            let h: i32 = if self.native_user.window_surface_height < 1 {
                1
            } else {
                self.native_user.window_surface_height
            };
            let dx = self.screen_width - w;
            let dy = self.screen_height - h;
            let x = (if dx > 0 { dx } else { 0 }) / 2;
            let y = (if dy > 0 { dy } else { 0 }) / 2;
            self.native_user.pending_window_position = Some((x, y));
            proof {
                NativeUserState::lemma_wf_window_fields(rt0.native_user, self.native_user);
            }
            Some(Ok((NativeValue::Int(1), None)))
        } else if id == 0x03 {
            let y = pop_int_value(args, 0);
            let x = pop_int_value(args, 0);
            let u = &self.native_user;
            let valid = u.window_mode == 0 && x >= 0 && y >= 0 && clamp_to_i32(x as i64 + u.window_surface_width as i64)
                <= self.screen_width && clamp_to_i32(y as i64 + u.window_surface_height as i64) <= self.screen_height;
            if valid {
                self.native_user.pending_window_position = Some((x, y));
            }
            proof {
                NativeUserState::lemma_wf_window_fields(rt0.native_user, self.native_user);
            }
            Some(Ok((NativeValue::Int(if valid { 1 } else { 0 }), None)))
        } else if id == 0x04 {
            let y_offset = pop_int_value(args, 0);
            let x_offset = pop_int_value(args, 0);
            let object = pop_int_value(args, 0);
            let idle = self.native_user.cursor_idle_timeout_ms != 0;
            let idle_visible = self.native_user.cursor_idle_visible;
            if object == 0 {
                self.native_user.cursor_object = None;
                proof {
                    NativeUserState::lemma_wf_window_fields(rt0.native_user, self.native_user);
                }
                return Some(
                    Ok(
                        (
                            NativeValue::Void,
                            Some(
                                UserHostRequest::CursorBinding {
                                    cursor_visible: if idle { idle_visible } else { true },
                                    object_enabled: None,
                                    object_position: None,
                                },
                            ),
                        ),
                    ),
                );
            }
            self.native_user.cursor_object = Some((object, x_offset, y_offset));
            proof {
                NativeUserState::lemma_wf_window_fields(rt0.native_user, self.native_user);
            }
            let position = self.tick_native_user_state(0);
            Some(
                Ok(
                    (
                        NativeValue::Void,
                        Some(
                            UserHostRequest::CursorBinding {
                                cursor_visible: false,
                                object_enabled: if idle { Some(idle_visible) } else { None },
                                object_position: position,
                            },
                        ),
                    ),
                ),
            )
        } else if id == 0x05 {
            let timeout = pop_int_value(args, 0);
            Some(Ok((NativeValue::Void, Some(UserHostRequest::CursorIdleTimeout(timeout)))))
        } else if id == 0xC4 {
            let name = chars_of(pop_string_value(args).as_str());
            let resolved = match self.native_user.font_aliases.get(&name) {
                Some(face) => face,
                None => name,
            };
            let known = self.native_user.font(string_of(&resolved).as_str()).is_some();
            let available = known || any_resource_ends_with(&self.native_user.font_resources, &resolved);
            Some(Ok((NativeValue::Int(if available { 1 } else { 0 }), None)))
        } else if id == 0xC6 {
            let second = chars_of(pop_string_value(args).as_str());
            let first = chars_of(pop_string_value(args).as_str());
            let available = if first.len() > 0 && second.len() > 0 {
                if vec_eq(&first, &second) {
                    true
                } else if self.native_user.font(string_of(&first).as_str()).is_some()
                    || self.native_user.font(string_of(&second).as_str()).is_some() {
                    true
                } else {
                    match self.native_user.font_aliases.get(&first) {
                        Some(face) => vec_eq(&face, &second),
                        None => false,
                    }
                }
            } else {
                false
            };
            Some(Ok((NativeValue::Int(if available { 1 } else { 0 }), None)))
        } else if id == 0xC7 {
            let face = chars_of(pop_string_value(args).as_str());
            let alias = chars_of(pop_string_value(args).as_str());
            if alias.len() > 0 {
                self.native_user.font_aliases.insert(alias, face);
            }
            proof {
                NativeUserState::lemma_wf_window_fields(rt0.native_user, self.native_user);
            }
            Some(Ok((NativeValue::Void, None)))
        } else {
            None
        }
    }
}

} // verus!
