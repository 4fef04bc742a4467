use vstd::prelude::*;
use std::collections::HashMap;
use crate::native_call::{pop0, pop_any_spec, pop_any_value, pop_int_value, pop_str_spec, pop_string_value, NativeValue};

verus! {

broadcast use vstd::std_specs::hash::group_hash_axioms;

/// The icon input processors (whether each is an extended one), the knobs
/// (whether each is enabled) and the handle of the knob that owns the
/// current mouse gesture (0 for none).
pub struct Graph91InputState {
    pub input_objects: HashMap<i32, bool>,
    pub knobs: HashMap<i32, bool>,
    pub active_input_handle: i32,
}

#[verifier::ext_equal]
pub struct Graph91InputModel {
    pub input_objects: Map<i32, bool>,
    pub knobs: Map<i32, bool>,
    pub active_input_handle: i32,
}

impl View for Graph91InputState {
    type V = Graph91InputModel;

    open spec fn view(&self) -> Graph91InputModel {
        Graph91InputModel {
            input_objects: self.input_objects@,
            knobs: self.knobs@,
            active_input_handle: self.active_input_handle,
        }
    }
}

/// Work the input, movie and Flash calls leave to the host: the window
/// registry, the input processors' items, and the movie and Flash players,
/// which read files. Each answers the call with a status.
#[derive(Debug)]
pub enum Graph91InputRequest {
    /// Create an extended icon input processor on `window` when the window
    /// exists; the new object's handle (0 when none) is the result.
    CreateExtendedInput { window: i32 },
    /// Set an input processor item's state.
    SetItemState { object: i32, group: i32, item: i32, state: i32 },
    /// Open a movie file into a bitmap slot (status 2 when it cannot be
    /// read).
    OpenMovie { bitmap: i32, path: String, looping: bool, volume: i32 },
    /// Step a movie slot.
    InvokeMovie { bitmap: i32 },
    /// Close a movie slot.
    CloseMovie { bitmap: i32 },
    /// Pause or resume a movie slot.
    PauseMovie { bitmap: i32, paused: bool },
    /// Create a Flash control from a file into a bitmap slot.
    CreateFlash { bitmap: i32, width: i32, height: i32, path: String, parameter: i32 },
    /// Start a Flash control.
    StartFlash { bitmap: i32 },
    /// Capture a Flash control's image into its bitmap and release it.
    CaptureFlash { bitmap: i32 },
    /// Whether a movie slot can report its position.
    MoviePosition { bitmap: i32 },
}

/// An input request with its texts as characters.
pub enum Graph91InputRequestModel {
    CreateExtendedInput { window: i32 },
    SetItemState { object: i32, group: i32, item: i32, state: i32 },
    OpenMovie { bitmap: i32, path: Seq<char>, looping: bool, volume: i32 },
    InvokeMovie { bitmap: i32 },
    CloseMovie { bitmap: i32 },
    PauseMovie { bitmap: i32, paused: bool },
    CreateFlash { bitmap: i32, width: i32, height: i32, path: Seq<char>, parameter: i32 },
    StartFlash { bitmap: i32 },
    CaptureFlash { bitmap: i32 },
    MoviePosition { bitmap: i32 },
}

impl View for Graph91InputRequest {
    type V = Graph91InputRequestModel;

    open spec fn view(&self) -> Graph91InputRequestModel {
        match self {
            Graph91InputRequest::CreateExtendedInput { window } => Graph91InputRequestModel::CreateExtendedInput {
                window: *window,
            },
            Graph91InputRequest::SetItemState { object, group, item, state } =>
                Graph91InputRequestModel::SetItemState { object: *object, group: *group, item: *item, state: *state },
            Graph91InputRequest::OpenMovie { bitmap, path, looping, volume } => Graph91InputRequestModel::OpenMovie {
                bitmap: *bitmap,
                path: path@,
                looping: *looping,
                volume: *volume,
            },
            Graph91InputRequest::InvokeMovie { bitmap } => Graph91InputRequestModel::InvokeMovie { bitmap: *bitmap },
            Graph91InputRequest::CloseMovie { bitmap } => Graph91InputRequestModel::CloseMovie { bitmap: *bitmap },
            Graph91InputRequest::PauseMovie { bitmap, paused } => Graph91InputRequestModel::PauseMovie {
                bitmap: *bitmap,
                paused: *paused,
            },
            Graph91InputRequest::CreateFlash { bitmap, width, height, path, parameter } =>
                Graph91InputRequestModel::CreateFlash {
                bitmap: *bitmap,
                width: *width,
                height: *height,
                path: path@,
                parameter: *parameter,
            },
            Graph91InputRequest::StartFlash { bitmap } => Graph91InputRequestModel::StartFlash { bitmap: *bitmap },
            Graph91InputRequest::CaptureFlash { bitmap } => Graph91InputRequestModel::CaptureFlash { bitmap: *bitmap },
            Graph91InputRequest::MoviePosition { bitmap } => Graph91InputRequestModel::MoviePosition { bitmap: *bitmap },
        }
    }
}

/// The calls of group `0x91` this state answers.
pub open spec fn input_call(id: u8) -> bool {
    id == 0xB8 || id == 0xBA || id == 0xBB || id == 0xBF || id == 0xDB || (0xF0 <= id <= 0xF7)
}

/// An input, knob, movie or Flash call (group `0x91`): the state after it,
/// the arguments it leaves, its result (or `Void` where the host answers)
/// and the host work.
pub open spec fn input_call_spec(m: Graph91InputModel, id: u8, args: Seq<NativeValue>) -> (
    Graph91InputModel,
    Seq<NativeValue>,
    NativeValue,
    Option<Graph91InputRequestModel>,
) {
    if id == 0xB8 {
        let (a, window) = pop0(args);
        (m, a, NativeValue::Void, Some(Graph91InputRequestModel::CreateExtendedInput { window }))
    } else if id == 0xBA {
        let (a, object) = pop0(pop_any_spec(args));
        let status: i32 = if !m.input_objects.contains_key(object) {
            1
        } else if !m.input_objects[object] {
            4
        } else {
            0
        };
        (m, a, NativeValue::Int(status), None)
    } else if id == 0xBB {
        let (a1, state) = pop0(args);
        let (a2, item) = pop0(a1);
        let (a3, group) = pop0(a2);
        let (a4, object) = pop0(a3);
        (m, a4, NativeValue::Void, Some(Graph91InputRequestModel::SetItemState { object, group, item, state }))
    } else if id == 0xBF {
        (m, pop_any_spec(pop_any_spec(args)), NativeValue::Void, None)
    } else if id == 0xDB {
        let h = m.active_input_handle;
        if h != 0 && m.knobs.contains_key(h) && m.knobs[h] {
            (m, args, NativeValue::Int(h), None)
        } else {
            (Graph91InputModel { active_input_handle: 0, ..m }, args, NativeValue::Int(0), None)
        }
    } else if id == 0xF0 {
        let (a1, volume) = pop0(args);
        let (a2, looping) = pop0(a1);
        let (a3, path) = pop_str_spec(a2);
        let (a4, bitmap) = pop0(a3);
        if !(0 <= bitmap < 0x4000) {
            (m, a4, NativeValue::Int(4), None)
        } else if !(0 <= volume <= 128) {
            (m, a4, NativeValue::Int(3), None)
        } else {
            (
                m,
                a4,
                NativeValue::Void,
                Some(Graph91InputRequestModel::OpenMovie { bitmap, path, looping: looping != 0, volume }),
            )
        }
    } else if id == 0xF1 || id == 0xF7 {
        let (a, bitmap) = pop0(args);
        (
            m,
            pop_any_spec(a),
            NativeValue::Void,
            Some(
                if id == 0xF1 {
                    Graph91InputRequestModel::InvokeMovie { bitmap }
                } else {
                    Graph91InputRequestModel::MoviePosition { bitmap }
                },
            ),
        )
    } else if id == 0xF3 {
        let (a1, paused) = pop0(args);
        let (a2, bitmap) = pop0(a1);
        (m, a2, NativeValue::Void, Some(Graph91InputRequestModel::PauseMovie { bitmap, paused: paused != 0 }))
    } else if id == 0xF4 {
        let (a1, parameter) = pop0(args);
        let (a2, path) = pop_str_spec(a1);
        let (a3, height) = pop0(a2);
        let (a4, width) = pop0(a3);
        let (a5, bitmap) = pop0(a4);
        (
            m,
            a5,
            NativeValue::Void,
            Some(Graph91InputRequestModel::CreateFlash { bitmap, width, height, path, parameter }),
        )
    } else {
        let (a, bitmap) = pop0(args);
        (
            m,
            a,
            NativeValue::Void,
            Some(
                if id == 0xF2 {
                    Graph91InputRequestModel::CloseMovie { bitmap }
                } else if id == 0xF5 {
                    Graph91InputRequestModel::StartFlash { bitmap }
                } else {
                    Graph91InputRequestModel::CaptureFlash { bitmap }
                },
            ),
        )
    }
}

impl Graph91InputState {
    /// Runs an input, knob, movie or Flash call of group `0x91`
    /// (`0xB8`..`0xF7`): pops its arguments, answers what this state knows
    /// (input processor status, the active knob, movie argument checks) and
    /// hands the rest to the host (see [`input_call_spec`]); `None` for
    /// another group or call.
    pub fn dispatch_system91_b8_f7(&mut self, group: u8, id: u8, args: &mut Vec<NativeValue>) -> (out: Option<
        (NativeValue, Option<Graph91InputRequest>),
    >)
        ensures
            match out {
                None => !(group == 0x91 && input_call(id)) && final(self)@ == old(self)@ && final(args)@ == old(
                    args,
                )@,
                Some((v, r)) => group == 0x91 && input_call(id) && ({
                    let (m, a, value, req) = input_call_spec(old(self)@, id, old(args)@);
                    &&& final(self)@ == m && final(args)@ == a && v == value
                    &&& req == match r {
                        Some(q) => Some(q@),
                        None => None::<Graph91InputRequestModel>,
                    }
                }),
            },
    {
        if group != 0x91 {
            return None;
        }
        if id == 0xB8 {
            let window = pop_int_value(args, 0);
            Some((NativeValue::Void, Some(Graph91InputRequest::CreateExtendedInput { window })))
        } else if id == 0xBA {
            let _ = pop_any_value(args);
            let object = pop_int_value(args, 0);
            let status: i32 = match self.input_objects.get(&object) {
                None => 1,
                Some(extended) => if *extended {
                    0
                } else {
                    4
                },
            };
            Some((NativeValue::Int(status), None))
        } else if id == 0xBB {
            let state = pop_int_value(args, 0);
            let item = pop_int_value(args, 0);
            let group = pop_int_value(args, 0);
            let object = pop_int_value(args, 0);
            Some((NativeValue::Void, Some(Graph91InputRequest::SetItemState { object, group, item, state })))
        } else if id == 0xBF {
            let _ = pop_any_value(args);
            let _ = pop_any_value(args);
            Some((NativeValue::Void, None))
        } else if id == 0xDB {
            let h = self.active_input_handle;
            let enabled = h != 0 && match self.knobs.get(&h) {
                Some(e) => *e,
                None => false,
            };
            if enabled {
                Some((NativeValue::Int(h), None))
            } else {
                self.active_input_handle = 0;
                Some((NativeValue::Int(0), None))
            }
        } else if id == 0xF0 {
            let volume = pop_int_value(args, 0);
            let looping = pop_int_value(args, 0);
            let path = pop_string_value(args);
            let bitmap = pop_int_value(args, 0);
            if !(0 <= bitmap && bitmap < 0x4000) {
                Some((NativeValue::Int(4), None))
            } else if !(0 <= volume && volume <= 128) {
                Some((NativeValue::Int(3), None))
            } else {
                Some(
                    (
                        NativeValue::Void,
                        Some(Graph91InputRequest::OpenMovie { bitmap, path, looping: looping != 0, volume }),
                    ),
                )
            }
        } else if id == 0xF1 || id == 0xF7 {
            let bitmap = pop_int_value(args, 0);
            let _ = pop_any_value(args);
            let req = if id == 0xF1 {
                Graph91InputRequest::InvokeMovie { bitmap }
            } else {
                Graph91InputRequest::MoviePosition { bitmap }
            };
            Some((NativeValue::Void, Some(req)))
        } else if id == 0xF3 {
            let paused = pop_int_value(args, 0);
            let bitmap = pop_int_value(args, 0);
            Some((NativeValue::Void, Some(Graph91InputRequest::PauseMovie { bitmap, paused: paused != 0 })))
        } else if id == 0xF4 {
            let parameter = pop_int_value(args, 0);
            let path = pop_string_value(args);
            let height = pop_int_value(args, 0);
            let width = pop_int_value(args, 0);
            let bitmap = pop_int_value(args, 0);
            Some((NativeValue::Void, Some(Graph91InputRequest::CreateFlash { bitmap, width, height, path, parameter })))
        } else if id == 0xF2 || id == 0xF5 || id == 0xF6 {
            let bitmap = pop_int_value(args, 0);
            let req = if id == 0xF2 {
                Graph91InputRequest::CloseMovie { bitmap }
            } else if id == 0xF5 {
                Graph91InputRequest::StartFlash { bitmap }
            } else {
                Graph91InputRequest::CaptureFlash { bitmap }
            };
            Some((NativeValue::Void, Some(req)))
        } else {
            None
        }
    }
}

} // verus!
