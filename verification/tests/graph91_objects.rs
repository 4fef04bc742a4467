use std::collections::{HashMap, HashSet};

use ethornell_app::graph91_input::{Graph91InputRequest, Graph91InputState};
use ethornell_app::graph91_text::{Graph91TextRequest, Graph91TextState, TextSurface};
use ethornell_app::graph91_objects::{Graph91ObjectRequest, Graph91ObjectState, ObjectTransform};
use ethornell_app::native_call::NativeValue;

fn transform() -> ObjectTransform {
    ObjectTransform {
        suppressed: false,
        fixed_position: (0x10000, 0x20000, 0),
        primary_vector: (0, 0, 0),
        secondary_vector: (0, 0, 0),
        attachment_offset: (0, 0),
        owner: None,
        fixed_members: false,
        base_position: (10, 20),
        rounding_enabled: false,
        rounding_mode: 0,
        mirrors_position: false,
    }
}

fn ints(values: &[i32]) -> Vec<NativeValue> {
    values.iter().map(|v| NativeValue::Int(*v)).collect()
}

fn call(s: &mut Graph91ObjectState, id: u8, values: &[i32]) -> Option<Graph91ObjectRequest> {
    let mut args = ints(values);
    let (value, request) = s.dispatch_system91_31_4a(0x91, id, &mut args).expect("object call");
    assert!(matches!(value, NativeValue::Void));
    assert!(args.is_empty());
    request
}

#[test]
fn attach_sets_member_base_and_vectors_reach_members() {
    let mut s = Graph91ObjectState::new();
    s.put_object(1, transform());
    s.put_object(2, transform());
    s.put_object(3, transform());
    assert!(matches!(
        call(&mut s, 0x3E, &[1, 2, 5, 6]),
        Some(Graph91ObjectRequest::Attach { master: 1, slave: 2, x: 5, y: 6, fixed: false })
    ));
    assert_eq!(s.objects[&2].owner, Some(1));
    assert_eq!(s.objects[&2].base_position, (15, 26));
    assert!(call(&mut s, 0x3E, &[3, 2, 0, 0]).is_none());
    assert!(matches!(call(&mut s, 0x36, &[1, 7, 8, 9]), Some(Graph91ObjectRequest::ResyncGeometry { object: 1 })));
    assert_eq!(s.objects[&1].secondary_vector, (7, 8, 9));
    assert_eq!(s.objects[&2].secondary_vector, (7, 8, 9));
    assert_eq!(s.objects[&3].secondary_vector, (0, 0, 0));
    call(&mut s, 0x37, &[2, 1, 1, 1]);
    assert_eq!(s.objects[&1].primary_vector, (0, 0, 0));
    assert_eq!(s.objects[&2].primary_vector, (1, 1, 1));
    assert!(matches!(call(&mut s, 0x3F, &[1, 2]), Some(Graph91ObjectRequest::Detach { master: 1, slave: 2 })));
    assert_eq!((s.objects[&2].owner, s.objects[&2].attachment_offset), (None, (0, 0)));
    assert!(call(&mut s, 0x3F, &[1, 2]).is_none());
    call(&mut s, 0x31, &[3, 1]);
    assert!(s.objects[&3].suppressed);
    assert_eq!(s.redraw_requested, Some(false));
}

#[test]
fn multilayer_background_needs_a_resource_and_scales() {
    let mut s = Graph91ObjectState::new();
    assert!(call(&mut s, 0x40, &[1, 2, 50, 0, 0, 0, 0x10000, 0x10000, 0]).is_none());
    assert!(!s.multilayer_active);
    s.resources.insert(50);
    assert!(matches!(
        call(&mut s, 0x40, &[1, 2, 50, 3, 4, 0, 0x10000, 0x10000, 9]),
        Some(Graph91ObjectRequest::PrepareMultilayer { x: 1, y: 2 })
    ));
    assert!(s.multilayer_active && s.layers[0].configured && s.layers[0].enabled);
    assert_eq!((s.layers[0].bitmap, s.layers[0].transparency), (50, 9));
    assert!(matches!(call(&mut s, 0x42, &[3, 1]), Some(Graph91ObjectRequest::SyncLayer { layer: 3 })));
    assert!(s.layers[3].enabled);
    assert!(call(&mut s, 0x45, &[3, 300]).is_none());
    assert!(call(&mut s, 0x47, &[3, 0, 0, 1, 0]).is_none());
    assert!(call(&mut s, 0x48, &[3, 11, 12]).is_none());
    assert_eq!((s.layers[3].auxiliary_a, s.layers[3].auxiliary_b), (11, 12));
    assert!(call(&mut s, 0x46, &[4, 77, 0, 0]).is_none());
    assert!(matches!(call(&mut s, 0x46, &[4, -1, 5, 6]), Some(Graph91ObjectRequest::SyncLayer { layer: 4 })));
    assert_eq!((s.layers[4].configured, s.layers[4].source_x), (false, 5));
    call(&mut s, 0x41, &[9]);
    assert_eq!(s.selected_layer, 0);
    call(&mut s, 0x41, &[5]);
    assert_eq!(s.selected_layer, 5);
    let mut args = ints(&[1]);
    assert!(s.dispatch_system91_31_4a(0x91, 0x50, &mut args).is_none());
    assert_eq!(args.len(), 1);
}

#[test]
fn input_calls_report_status_and_hand_over_media() {
    let mut s = Graph91InputState { input_objects: HashMap::new(), knobs: HashMap::new(), active_input_handle: 0 };
    s.input_objects.insert(5, true);
    s.input_objects.insert(6, false);
    let status = |s: &mut Graph91InputState, object: i32| -> Option<i32> {
        let mut args = vec![NativeValue::Int(object), NativeValue::Int(0)];
        match s.dispatch_system91_b8_f7(0x91, 0xBA, &mut args) {
            Some((NativeValue::Int(v), None)) => Some(v),
            _ => None,
        }
    };
    assert_eq!(status(&mut s, 5), Some(0));
    assert_eq!(status(&mut s, 6), Some(4));
    assert_eq!(status(&mut s, 7), Some(1));

    s.knobs.insert(9, false);
    s.active_input_handle = 9;
    assert!(matches!(s.dispatch_system91_b8_f7(0x91, 0xDB, &mut Vec::new()), Some((NativeValue::Int(0), None))));
    assert_eq!(s.active_input_handle, 0);
    s.knobs.insert(9, true);
    s.active_input_handle = 9;
    assert!(matches!(s.dispatch_system91_b8_f7(0x91, 0xDB, &mut Vec::new()), Some((NativeValue::Int(9), None))));

    let movie = |bitmap: i32, volume: i32| {
        vec![NativeValue::Int(bitmap), NativeValue::Str("op.mpg".to_string()), NativeValue::Int(1), NativeValue::Int(volume)]
    };
    assert!(matches!(s.dispatch_system91_b8_f7(0x91, 0xF0, &mut movie(0x4000, 50)), Some((NativeValue::Int(4), None))));
    assert!(matches!(s.dispatch_system91_b8_f7(0x91, 0xF0, &mut movie(3, 129)), Some((NativeValue::Int(3), None))));
    match s.dispatch_system91_b8_f7(0x91, 0xF0, &mut movie(3, 64)) {
        Some((NativeValue::Void, Some(Graph91InputRequest::OpenMovie { bitmap, path, looping, volume }))) => {
            assert_eq!((bitmap, path.as_str(), looping, volume), (3, "op.mpg", true, 64));
        },
        other => panic!("unexpected {other:?}"),
    }
    assert!(s.dispatch_system91_b8_f7(0x91, 0xB9, &mut Vec::new()).is_none());
}

#[test]
fn text_calls_set_window_text_and_answer_queries() {
    let mut s = Graph91TextState {
        surfaces: HashMap::new(),
        text_states: HashMap::new(),
        fonts: HashSet::new(),
        boundary_offset: 4,
        global_properties: HashMap::new(),
    };
    s.surfaces.insert(1, TextSurface { line_spacing_percent: 100, message_variant: 0, valid_left: 10, valid_top: 20 });
    s.fonts.insert(3);
    let font = |s: &mut Graph91TextState, size: i32| {
        let mut args = ints(&[1, 3, size, 150, 0, 0, 0]);
        s.dispatch_system91_88_9f(0x91, 0x88, &mut args).expect("text call")
    };
    assert!(matches!(font(&mut s, 201), (NativeValue::Void, None)));
    assert!(!s.text_states.contains_key(&1));
    assert!(matches!(font(&mut s, 24), (NativeValue::Void, Some(Graph91TextRequest::TextMetrics { font_size: 24, scale_percent: 150 }))));
    assert_eq!(s.text_states[&1].font_size, 24);

    let mut args = ints(&[1, 14, 30]);
    s.dispatch_system91_88_9f(0x91, 0x8C, &mut args);
    let mut args = ints(&[1]);
    assert!(matches!(s.dispatch_system91_88_9f(0x91, 0x8D, &mut args), Some((NativeValue::Int(30), None))));
    assert_eq!(args.len(), 2);
    let mut args = ints(&[1]);
    assert!(matches!(s.dispatch_system91_88_9f(0x91, 0x8E, &mut args), Some((NativeValue::Int(1), None))));
    let mut args = ints(&[1, 900]);
    s.dispatch_system91_88_9f(0x91, 0x89, &mut args);
    assert_eq!(s.surfaces[&1].line_spacing_percent, 100);

    let mut args = ints(&[0x8000_0001u32 as i32, -1]);
    s.dispatch_system91_88_9f(0x91, 0x9A, &mut args);
    assert!(s.global_properties.is_empty());
    let mut args = ints(&[0x8000_0002u32 as i32, -1]);
    s.dispatch_system91_88_9f(0x91, 0x9A, &mut args);
    assert_eq!(s.global_properties.get(&0x8000_0002), Some(&-1));

    let mut args = ints(&[0, -2, 7, 0, 0, 0, 0, 0, 0, 0, 0, 0, 0, 0]);
    assert!(matches!(
        s.dispatch_system91_88_9f(0x91, 0x9C, &mut args),
        Some((NativeValue::Int(7), Some(Graph91TextRequest::RenderText { .. })))
    ));
    let mut args = vec![NativeValue::Int(0), NativeValue::Str("<l>a</l><l>b</l>".to_string())];
    assert!(matches!(s.dispatch_system91_88_9f(0x91, 0x9E, &mut args), Some((NativeValue::Int(2), None))));
    assert!(s.dispatch_system91_88_9f(0x91, 0x8F, &mut Vec::new()).is_none());
}

#[test]
fn graph91_fixed_position_moves_members_and_rounds() {
    let mut s = Graph91ObjectState::new();
    s.put_object(10, transform());
    s.put_object(
        11,
        ObjectTransform { owner: Some(10), fixed_position: (0x18000, 0x20000, 0), rounding_enabled: true, ..transform() },
    );
    s.put_object(12, ObjectTransform { fixed_position: (5, 6, 7), ..transform() });
    let mut stack: Vec<NativeValue> = [10, 0x30000, 0x40000, 0].iter().map(|v| NativeValue::Int(*v)).collect();
    let out = s.dispatch_system91_31_4a(0x91, 0x33, &mut stack);
    assert!(matches!(out, Some((NativeValue::Void, Some(Graph91ObjectRequest::FixedPositionMoved { object: 10 })))));
    assert!(stack.is_empty());
    assert_eq!(s.objects[&10].fixed_position, (0x30000, 0x40000, 0));
    assert_eq!(s.objects[&11].fixed_position, (0x40000, 0x40000, 0));
    assert_eq!(s.objects[&12].fixed_position, (5, 6, 7));
    let mut stack: Vec<NativeValue> = [99, 1, 2, 3].iter().map(|v| NativeValue::Int(*v)).collect();
    assert!(matches!(s.dispatch_system91_31_4a(0x91, 0x33, &mut stack), Some((NativeValue::Void, None))));
}
