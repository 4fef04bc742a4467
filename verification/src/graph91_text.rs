use vstd::prelude::*;
use std::collections::{HashMap, HashSet};
use crate::native_call::{
    pop0, pop_any_spec, pop_any_value, pop_int_value, pop_str_spec, pop_string_value, pop_values,
    popped_values_spec, source_ints_spec, value_int, NativeValue,
};
use crate::native_graph_ext::{count_native_labels, native_label_count};

verus! {

broadcast use vstd::std_specs::hash::group_hash_axioms;

/// A window's text settings: font, size, scale, style, layout and render
/// options, layout mode and text cursor (all 0 until set).
#[derive(Debug, Clone, Copy)]
pub struct SurfaceTextState {
    pub font: i32,
    pub font_size: i32,
    pub scale_percent: i32,
    pub font_style: i32,
    pub layout_option: i32,
    pub render_option: i32,
    pub text_layout_mode: i32,
    pub cursor_x: i32,
    pub cursor_y: i32,
}

impl SurfaceTextState {
    pub open spec fn zero() -> Self {
        SurfaceTextState {
            font: 0,
            font_size: 0,
            scale_percent: 0,
            font_style: 0,
            layout_option: 0,
            render_option: 0,
            text_layout_mode: 0,
            cursor_x: 0,
            cursor_y: 0,
        }
    }
}

/// A window surface as the text calls read it: its line spacing, message
/// variant (1 for vertical text) and the left and top of its valid area.
#[derive(Debug, Clone, Copy)]
pub struct TextSurface {
    pub line_spacing_percent: i32,
    pub message_variant: i32,
    pub valid_left: i32,
    pub valid_top: i32,
}

/// The window surfaces, their text settings, the font ids that exist, the
/// text boundary offset and the global text properties.
pub struct Graph91TextState {
    pub surfaces: HashMap<i32, TextSurface>,
    pub text_states: HashMap<i32, SurfaceTextState>,
    pub fonts: HashSet<i32>,
    pub boundary_offset: i32,
    pub global_properties: HashMap<u32, i32>,
}

#[verifier::ext_equal]
pub struct Graph91TextModel {
    pub surfaces: Map<i32, TextSurface>,
    pub text_states: Map<i32, SurfaceTextState>,
    pub fonts: Set<i32>,
    pub boundary_offset: i32,
    pub global_properties: Map<u32, i32>,
}

impl View for Graph91TextState {
    type V = Graph91TextModel;

    open spec fn view(&self) -> Graph91TextModel {
        Graph91TextModel {
            surfaces: self.surfaces@,
            text_states: self.text_states@,
            fonts: self.fonts@,
            boundary_offset: self.boundary_offset,
            global_properties: self.global_properties@,
        }
    }
}

/// Text work left to the host: messages, text rendering, the text
/// defaults it keeps (substitutions, ruby records, style and layout), and
/// the text metrics it derives from a font size and scale.
#[derive(Debug)]
pub enum Graph91TextRequest {
    /// The window's text font changed: derive the font size and line height
    /// (size times scale percent) for drawing.
    TextMetrics { font_size: i32, scale_percent: i32 },
    /// Start a message procedure with the popped arguments (pop order).
    StartMessage { arguments: Vec<NativeValue> },
    /// Render a text run with the popped arguments (pop order).
    RenderText { arguments: Vec<NativeValue> },
    /// Another text-default call, with its popped arguments (pop order);
    /// the host's answer is the call's result.
    TextDefaults { call: u8, arguments: Vec<NativeValue> },
}

/// A text request as a model.
pub enum Graph91TextRequestModel {
    TextMetrics { font_size: i32, scale_percent: i32 },
    StartMessage { arguments: Seq<NativeValue> },
    RenderText { arguments: Seq<NativeValue> },
    TextDefaults { call: u8, arguments: Seq<NativeValue> },
}

impl View for Graph91TextRequest {
    type V = Graph91TextRequestModel;

    open spec fn view(&self) -> Graph91TextRequestModel {
        match self {
            Graph91TextRequest::TextMetrics { font_size, scale_percent } => Graph91TextRequestModel::TextMetrics {
                font_size: *font_size,
                scale_percent: *scale_percent,
            },
            Graph91TextRequest::StartMessage { arguments } => Graph91TextRequestModel::StartMessage {
                arguments: arguments@,
            },
            Graph91TextRequest::RenderText { arguments } => Graph91TextRequestModel::RenderText {
                arguments: arguments@,
            },
            Graph91TextRequest::TextDefaults { call, arguments } => Graph91TextRequestModel::TextDefaults {
                call: *call,
                arguments: arguments@,
            },
        }
    }
}

/// How many values the calls handed to the host pop.
pub open spec fn text_host_arity(id: u8) -> Option<nat> {
    if id == 0x90 || id == 0x9B {
        if id == 0x90 {
            Some(10)
        } else {
            Some(7)
        }
    } else if id == 0x92 {
        Some(11)
    } else if id == 0x91 {
        Some(5)
    } else if id == 0x93 {
        Some(6)
    } else if id == 0x94 || id == 0x95 {
        Some(2)
    } else if id == 0x96 || id == 0x99 {
        Some(1)
    } else if id == 0x97 {
        Some(5)
    } else if id == 0x98 {
        Some(6)
    } else if id == 0x9C {
        Some(14)
    } else if id == 0x9D {
        Some(15)
    } else {
        None
    }
}

/// The calls of group `0x91` in `0x88`..`0x9F` this state answers.
pub open spec fn text_call(id: u8) -> bool {
    (0x88 <= id <= 0x8E) || text_host_arity(id) is Some || id == 0x9A || id == 0x9E || id == 0x9F
}

/// The first positive integer among values, 0 when none.
pub open spec fn first_positive(values: Seq<NativeValue>) -> i32
    decreases values.len(),
{
    if values.len() == 0 {
        0
    } else if value_int(values[0]) > 0 {
        value_int(values[0])
    } else {
        first_positive(values.drop_first())
    }
}

/// A window's text settings, 0 until set.
pub open spec fn text_state_of(m: Graph91TextModel, window: i32) -> SurfaceTextState {
    if m.text_states.contains_key(window) {
        m.text_states[window]
    } else {
        SurfaceTextState::zero()
    }
}

/// The model with a window's text settings replaced.
pub open spec fn with_text_state(m: Graph91TextModel, window: i32, t: SurfaceTextState) -> Graph91TextModel {
    Graph91TextModel { text_states: m.text_states.insert(window, t), ..m }
}

/// A text call (group `0x91`, `0x88`..`0x9F`): the state after it, the
/// arguments it leaves, its result (`Void` where the host answers) and
/// the host work.
pub open spec fn text_call_spec(m: Graph91TextModel, id: u8, args: Seq<NativeValue>) -> (
    Graph91TextModel,
    Seq<NativeValue>,
    NativeValue,
    Option<Graph91TextRequestModel>,
) {
    if id == 0x88 {
        let (a1, render_option) = pop0(args);
        let (a2, layout_option) = pop0(a1);
        let (a3, font_style) = pop0(a2);
        let (a4, scale_percent) = pop0(a3);
        let (a5, font_size) = pop0(a4);
        let (a6, font) = pop0(a5);
        let (a7, window) = pop0(a6);
        if m.surfaces.contains_key(window) && (font == 0 || m.fonts.contains(font)) && 4 <= font_size <= 200 && 25
            <= scale_percent <= 200 {
            let t = SurfaceTextState {
                font,
                font_size,
                scale_percent,
                font_style,
                layout_option,
                render_option,
                ..text_state_of(m, window)
            };
            (
                with_text_state(m, window, t),
                a7,
                NativeValue::Void,
                Some(Graph91TextRequestModel::TextMetrics { font_size, scale_percent }),
            )
        } else {
            (m, a7, NativeValue::Void, None)
        }
    } else if id == 0x89 || id == 0x8A {
        let (a1, value) = pop0(args);
        let (a2, window) = pop0(a1);
        let ok = if id == 0x89 {
            0 <= value <= 800
        } else {
            0 <= value <= 1
        };
        if ok && m.surfaces.contains_key(window) {
            let s = m.surfaces[window];
            let s2 = if id == 0x89 {
                TextSurface { line_spacing_percent: value, ..s }
            } else {
                TextSurface { message_variant: value, ..s }
            };
            (Graph91TextModel { surfaces: m.surfaces.insert(window, s2), ..m }, a2, NativeValue::Void, None)
        } else {
            (m, a2, NativeValue::Void, None)
        }
    } else if id == 0x8B {
        let (a1, mode) = pop0(args);
        let (a2, window) = pop0(a1);
        if 0 <= mode <= 2 && m.surfaces.contains_key(window) {
            (
                with_text_state(m, window, SurfaceTextState { text_layout_mode: mode, ..text_state_of(m, window) }),
                a2,
                NativeValue::Void,
                None,
            )
        } else {
            (m, a2, NativeValue::Void, None)
        }
    } else if id == 0x8C {
        let (a1, y) = pop0(args);
        let (a2, x) = pop0(a1);
        let (a3, window) = pop0(a2);
        if m.surfaces.contains_key(window) {
            (
                with_text_state(m, window, SurfaceTextState { cursor_x: x, cursor_y: y, ..text_state_of(m, window) }),
                a3,
                NativeValue::Void,
                None,
            )
        } else {
            (m, a3, NativeValue::Void, None)
        }
    } else if id == 0x8D {
        let (a1, window) = pop0(args);
        let t = text_state_of(m, window);
        (
            m,
            a1.push(NativeValue::Int(if m.surfaces.contains_key(window) { 1 } else { 0 })).push(
                NativeValue::Int(t.cursor_x),
            ),
            NativeValue::Int(t.cursor_y),
            None,
        )
    } else if id == 0x8E {
        let (a1, window) = pop0(args);
        let t = text_state_of(m, window);
        let reached = m.surfaces.contains_key(window) && if m.surfaces[window].message_variant == 1 {
            t.cursor_y == m.surfaces[window].valid_top + m.boundary_offset
        } else {
            t.cursor_x == m.surfaces[window].valid_left + m.boundary_offset
        };
        (m, a1, NativeValue::Int(if reached { 1 } else { 0 }), None)
    } else if id == 0x9A {
        let (a1, value) = pop0(args);
        let (a2, property) = pop0(a1);
        let p = property as u32;
        let accepted = (p == 0 || p == 0x8000_0000 || p == 0x8000_0001 || p == 0x8000_0002) && (p != 0x8000_0001
            || value >= 0);
        if accepted {
            (Graph91TextModel { global_properties: m.global_properties.insert(p, value), ..m }, a2, NativeValue::Void, None)
        } else {
            (m, a2, NativeValue::Void, None)
        }
    } else if id == 0x9E || id == 0x9F {
        let (a1, source) = pop_str_spec(args);
        let count = native_label_count(source);
        (
            m,
            pop_any_spec(a1),
            if id == 0x9E {
                NativeValue::Int(if count > i32::MAX as nat { i32::MAX } else { count as i32 })
            } else {
                NativeValue::Void
            },
            None,
        )
    } else {
        let n = text_host_arity(id)->0;
        let values = popped_values_spec(args, n);
        let rest = source_ints_spec(args, n).0;
        if id == 0x9B {
            (m, rest, NativeValue::Int(0), None)
        } else if id == 0x90 || id == 0x92 {
            (m, rest, NativeValue::Void, Some(Graph91TextRequestModel::StartMessage { arguments: values }))
        } else if id == 0x91 || id == 0x93 || id == 0x9C || id == 0x9D {
            (
                m,
                rest,
                if id == 0x9C || id == 0x9D {
                    NativeValue::Int(first_positive(values))
                } else {
                    NativeValue::Void
                },
                Some(Graph91TextRequestModel::RenderText { arguments: values }),
            )
        } else {
            (m, rest, NativeValue::Void, Some(Graph91TextRequestModel::TextDefaults { call: id, arguments: values }))
        }
    }
}

/// The first positive integer among values (see [`first_positive`]).
fn first_positive_value(values: &Vec<NativeValue>) -> (out: i32)
    ensures
        out == first_positive(values@),
{
    let mut i: usize = 0;
    assert(values@.skip(0) =~= values@);
    while i < values.len()
        invariant
            i <= values.len(),
            first_positive(values@) == first_positive(values@.skip(i as int)),
        decreases values.len() - i,
    {
        assert(values@.skip(i as int).drop_first() =~= values@.skip(i + 1));
        let v: i32 = match &values[i] {
            NativeValue::Int(x) => *x,
            _ => 0,
        };
        if v > 0 {
            return v;
        }
        i += 1;
    }
    0
}

impl Graph91TextState {
    /// A window's text settings, 0 until set.
    fn text_state(&self, window: i32) -> (t: SurfaceTextState)
        ensures
            t == text_state_of(self@, window),
    {
        match self.text_states.get(&window) {
            Some(t) => *t,
            None => SurfaceTextState {
                font: 0,
                font_size: 0,
                scale_percent: 0,
                font_style: 0,
                layout_option: 0,
                render_option: 0,
                text_layout_mode: 0,
                cursor_x: 0,
                cursor_y: 0,
            },
        }
    }

    /// Runs a window-text call of group `0x91` (`0x88`..`0x9F`): pops its
    /// arguments, changes the windows' text settings and the global text
    /// properties, answers the cursor and boundary queries, and hands
    /// messages, text rendering and the text defaults to the host (see
    /// [`text_call_spec`]); `None` for another group or call.
    #[verifier::rlimit(60)]
    pub fn dispatch_system91_88_9f(&mut self, group: u8, id: u8, args: &mut Vec<NativeValue>) -> (out: Option<
        (NativeValue, Option<Graph91TextRequest>),
    >)
        ensures
            match out {
                None => !(group == 0x91 && text_call(id)) && final(self)@ == old(self)@ && final(args)@ == old(
                    args,
                )@,
                Some((v, r)) => group == 0x91 && text_call(id) && ({
                    let (m, a, value, req) = text_call_spec(old(self)@, id, old(args)@);
                    &&& final(self)@ == m && final(args)@ == a && v == value
                    &&& req == match r {
                        Some(q) => Some(q@),
                        None => None::<Graph91TextRequestModel>,
                    }
                }),
            },
    {
        let ghost m0 = self@;
        if group != 0x91 {
            return None;
        }
        if id == 0x88 {
            let render_option = pop_int_value(args, 0);
            let layout_option = pop_int_value(args, 0);
            let font_style = pop_int_value(args, 0);
            let scale_percent = pop_int_value(args, 0);
            let font_size = pop_int_value(args, 0);
            let font = pop_int_value(args, 0);
            let window = pop_int_value(args, 0);
            if self.surfaces.contains_key(&window) && (font == 0 || self.fonts.contains(&font)) && 4 <= font_size
                && font_size <= 200 && 25 <= scale_percent && scale_percent <= 200 {
                let t = SurfaceTextState {
                    font,
                    font_size,
                    scale_percent,
                    font_style,
                    layout_option,
                    render_option,
                    ..self.text_state(window)
                };
                self.text_states.insert(window, t);
                assert(self@ =~= with_text_state(m0, window, t));
                return Some((NativeValue::Void, Some(Graph91TextRequest::TextMetrics { font_size, scale_percent })));
            }
            Some((NativeValue::Void, None))
        } else if id == 0x89 || id == 0x8A {
            let value = pop_int_value(args, 0);
            let window = pop_int_value(args, 0);
            let ok = if id == 0x89 {
                0 <= value && value <= 800
            } else {
                0 <= value && value <= 1
            };
            if ok {
                if let Some(s) = self.surfaces.get(&window) {
                    let s2 = if id == 0x89 {
                        TextSurface { line_spacing_percent: value, ..*s }
                    } else {
                        TextSurface { message_variant: value, ..*s }
                    };
                    self.surfaces.insert(window, s2);
                    assert(self@ =~= Graph91TextModel { surfaces: m0.surfaces.insert(window, s2), ..m0 });
                }
            }
            Some((NativeValue::Void, None))
        } else if id == 0x8B || id == 0x8C {
            let (mode, x, y) = if id == 0x8B {
                (pop_int_value(args, 0), 0, 0)
            } else {
                let y = pop_int_value(args, 0);
                let x = pop_int_value(args, 0);
                (0, x, y)
            };
            let window = pop_int_value(args, 0);
            let ok = id == 0x8C || (0 <= mode && mode <= 2);
            if ok && self.surfaces.contains_key(&window) {
                let t0 = self.text_state(window);
                let t = if id == 0x8B {
                    SurfaceTextState { text_layout_mode: mode, ..t0 }
                } else {
                    SurfaceTextState { cursor_x: x, cursor_y: y, ..t0 }
                };
                self.text_states.insert(window, t);
                assert(self@ =~= with_text_state(m0, window, t));
            }
            Some((NativeValue::Void, None))
        } else if id == 0x8D {
            let window = pop_int_value(args, 0);
            let exists = self.surfaces.contains_key(&window);
            let t = self.text_state(window);
            args.push(NativeValue::Int(if exists { 1 } else { 0 }));
            args.push(NativeValue::Int(t.cursor_x));
            Some((NativeValue::Int(t.cursor_y), None))
        } else if id == 0x8E {
            let window = pop_int_value(args, 0);
            let t = self.text_state(window);
            let reached = match self.surfaces.get(&window) {
                Some(s) => if s.message_variant == 1 {
                    t.cursor_y as i64 == s.valid_top as i64 + self.boundary_offset as i64
                } else {
                    t.cursor_x as i64 == s.valid_left as i64 + self.boundary_offset as i64
                },
                None => false,
            };
            Some((NativeValue::Int(if reached { 1 } else { 0 }), None))
        } else if id == 0x9A {
            let value = pop_int_value(args, 0);
            let property = pop_int_value(args, 0);
            let p = property as u32;
            let accepted = (p == 0 || p == 0x8000_0000 || p == 0x8000_0001 || p == 0x8000_0002) && (p != 0x8000_0001
                || value >= 0);
            if accepted {
                self.global_properties.insert(p, value);
                assert(self@ =~= Graph91TextModel { global_properties: m0.global_properties.insert(p, value), ..m0 });
            }
            Some((NativeValue::Void, None))
        } else if id == 0x9E || id == 0x9F {
            let source = pop_string_value(args);
            let _ = pop_any_value(args);
            if id == 0x9E {
                Some((NativeValue::Int(count_native_labels(source.as_str())), None))
            } else {
                Some((NativeValue::Void, None))
            }
        } else {
            let n: usize = if id == 0x90 {
                10
            } else if id == 0x9B {
                7
            } else if id == 0x92 {
                11
            } else if id == 0x91 || id == 0x97 {
                5
            } else if id == 0x93 || id == 0x98 {
                6
            } else if id == 0x94 || id == 0x95 {
                2
            } else if id == 0x96 || id == 0x99 {
                1
            } else if id == 0x9C {
                14
            } else if id == 0x9D {
                15
            } else {
                return None;
            };
            let values = pop_values(args, n);
            if id == 0x9B {
                Some((NativeValue::Int(0), None))
            } else if id == 0x90 || id == 0x92 {
                Some((NativeValue::Void, Some(Graph91TextRequest::StartMessage { arguments: values })))
            } else if id == 0x91 || id == 0x93 || id == 0x9C || id == 0x9D {
                let value = if id == 0x9C || id == 0x9D {
                    NativeValue::Int(first_positive_value(&values))
                } else {
                    NativeValue::Void
                };
                Some((value, Some(Graph91TextRequest::RenderText { arguments: values })))
            } else {
                Some((NativeValue::Void, Some(Graph91TextRequest::TextDefaults { call: id, arguments: values })))
            }
        }
    }
}

} // verus!
