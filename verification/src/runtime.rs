use vstd::prelude::*;
use crate::native_graph_sys91::{graph91_wf, Graph91State};
use crate::native_sound::{closed_cd, NativeSoundState};
use crate::native_user::{NativeScreenShakeState, NativeUserState};

verus! {

/// The runtime state the native call groups act on: the user-interface
/// state, the current shake offset and pointer position, the sound and
/// graphics state, whether message boxes are shown by the host's native
/// dialogs, and whether a call asked the frame to yield.
pub struct RuntimeTraceApi {
    pub native_user: NativeUserState,
    pub screen_shake_offset: (i64, i64),
    pub mouse_pos: Option<(i32, i32)>,
    pub screen_width: i32,
    pub screen_height: i32,
    pub sound: NativeSoundState,
    pub graph91: Graph91State,
    pub native_dialog_presentation: bool,
    pub frame_yield_requested: bool,
}

impl RuntimeTraceApi {
    /// Everything but the sound state agrees.
    pub open spec fn same_outside_sound(self, o: Self) -> bool {
        &&& self.native_user == o.native_user
        &&& self.screen_shake_offset == o.screen_shake_offset
        &&& self.mouse_pos == o.mouse_pos
        &&& self.screen_width == o.screen_width
        &&& self.screen_height == o.screen_height
        &&& self.graph91 == o.graph91
        &&& self.native_dialog_presentation == o.native_dialog_presentation
        &&& self.frame_yield_requested == o.frame_yield_requested
    }

    /// Everything but the user-interface state and the shake offset agrees.
    pub open spec fn same_outside_user(self, o: Self) -> bool {
        &&& self.mouse_pos == o.mouse_pos
        &&& self.screen_width == o.screen_width
        &&& self.screen_height == o.screen_height
        &&& self.sound == o.sound
        &&& self.graph91 == o.graph91
        &&& self.native_dialog_presentation == o.native_dialog_presentation
        &&& self.frame_yield_requested == o.frame_yield_requested
    }

    /// Everything but the effector, landscape and bitmap state agrees.
    pub open spec fn same_outside_graph91(self, o: Self) -> bool {
        &&& self.native_user == o.native_user
        &&& self.screen_shake_offset == o.screen_shake_offset
        &&& self.mouse_pos == o.mouse_pos
        &&& self.screen_width == o.screen_width
        &&& self.screen_height == o.screen_height
        &&& self.sound == o.sound
        &&& self.native_dialog_presentation == o.native_dialog_presentation
        &&& self.frame_yield_requested == o.frame_yield_requested
    }

    /// A fresh runtime for a screen of the given size: start-up user state,
    /// no offset, no pointer, start-up sound state.
    pub fn new(screen_width: i32, screen_height: i32) -> (r: Self)
        ensures
            r.wf(),
            r.screen_width == screen_width,
            r.screen_height == screen_height,
            r.screen_shake_offset == (0i64, 0i64),
            r.mouse_pos is None,
            r.native_user.screen_shake == NativeScreenShakeState::idle(),
            r.native_user.crt_rng_seed == 1,
            r.sound@.audio_requests.len() == 0,
            r.sound@.cd == closed_cd(),
            r.graph91@.effectors.len() == 0,
            r.graph91@.landscapes.len() == 0,
            graph91_wf(r.graph91@),
            !r.native_dialog_presentation && !r.frame_yield_requested,
    {
        RuntimeTraceApi {
            native_user: NativeUserState::new(),
            screen_shake_offset: (0, 0),
            mouse_pos: None,
            screen_width,
            screen_height,
            sound: NativeSoundState::new(),
            graph91: Graph91State::new(),
            native_dialog_presentation: false,
            frame_yield_requested: false,
        }
    }
}

/// A runtime text style: the characters `start_char..end_char` it covers and
/// its packed RGB colour, if it sets one.
#[derive(Debug, Clone, Copy)]
pub struct RuntimeTextStyleSpan {
    pub start_char: usize,
    pub end_char: usize,
    pub packed_rgb: Option<u32>,
}

pub const SNAPSHOT_WIDTH: u32 = 1280;
pub const SNAPSHOT_HEIGHT: u32 = 720;

/// The size of a composed frame: the runtime's screen size, each dimension
/// falling back to 1280x720 when not positive.
pub fn runtime_frame_size(api: &RuntimeTraceApi) -> (size: (u32, u32))
    ensures
        size.0 == (if api.screen_width > 0 { api.screen_width as u32 } else { SNAPSHOT_WIDTH }),
        size.1 == (if api.screen_height > 0 { api.screen_height as u32 } else { SNAPSHOT_HEIGHT }),
{
    let width = if api.screen_width > 0 { api.screen_width as u32 } else { SNAPSHOT_WIDTH };
    let height = if api.screen_height > 0 { api.screen_height as u32 } else { SNAPSHOT_HEIGHT };
    (width, height)
}

/// Whether a style covers character `i`.
pub open spec fn style_covers(s: RuntimeTextStyleSpan, i: usize) -> bool {
    s.start_char <= i && i < s.end_char
}

/// The first style that covers character `char_index`.
pub fn runtime_text_style_at(styles: &[RuntimeTextStyleSpan], char_index: usize) -> (out: Option<&RuntimeTextStyleSpan>)
    ensures
        out matches Some(s) ==> exists|k: int|
            0 <= k < styles@.len() && *s == styles@[k] && style_covers(styles@[k], char_index) && (forall|j: int|
                0 <= j < k ==> !style_covers(#[trigger] styles@[j], char_index)),
        out is None ==> forall|j: int| 0 <= j < styles@.len() ==> !style_covers(#[trigger] styles@[j], char_index),
{
    let mut i: usize = 0;
    while i < styles.len()
        invariant
            i <= styles@.len(),
            forall|j: int| 0 <= j < i ==> !style_covers(#[trigger] styles@[j], char_index),
        decreases styles.len() - i,
    {
        let s = &styles[i];
        if s.start_char <= char_index && char_index < s.end_char {
            assert(style_covers(styles@[i as int], char_index));
            return Some(s);
        }
        i += 1;
    }
    None
}

} // verus!
