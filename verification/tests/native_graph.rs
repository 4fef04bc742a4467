use ethornell_app::native_call::NativeValue;
use ethornell_app::native_graph::{
    Graph90BitmapOperation, Graph90Error, Graph90Object, Graph90Request, Graph90State, MemberSetting,
    FILTER_BASE, MAP_BASE, SPRITE_BASE,
};

fn ints(values: &[i32]) -> Vec<NativeValue> {
    values.iter().map(|v| NativeValue::Int(*v)).collect()
}

fn object(owner: Option<i32>) -> Graph90Object {
    Graph90Object { owner, ..Graph90Object::new(true) }
}

fn call(state: &mut Graph90State, id: u8, args: &[i32]) -> Result<(NativeValue, Option<Graph90Request>), Graph90Error> {
    let mut stack = ints(args);
    let out = state.dispatch_native_graph(0x90, id, &mut stack).expect("handled");
    assert!(stack.is_empty());
    out
}

fn returns_void(r: &Result<(NativeValue, Option<Graph90Request>), Graph90Error>) -> bool {
    matches!(r, Ok((NativeValue::Void, _)))
}

#[test]
fn graph90_settings_store_redraw_bitmap_and_colour() {
    let mut s = Graph90State::new();
    assert!(returns_void(&call(&mut s, 0x0A, &[1, 0])));
    assert!(s.redraw_enabled);
    assert!(!s.redraw_full);
    call(&mut s, 0x0B, &[42]).unwrap();
    assert_eq!(s.primary_bitmap, Some(42));
    call(&mut s, 0x0F, &[0x00FF00]).unwrap();
    assert_eq!(s.unblend_color, 0x00FF00);
    call(&mut s, 0xA4, &[3, 4]).unwrap();
    assert_eq!(s.highlight_styles, (3, 4));
    call(&mut s, 0xA6, &[1, 2, 3, 4]).unwrap();
    assert_eq!(s.item_navigation, (1, 2, 3, 4));
    call(&mut s, 0x92, &[5]).unwrap();
    assert!(s.message_input_filter);
}

#[test]
fn graph90_member_settings_reach_members_only() {
    let mut s = Graph90State::new();
    s.put_object(10, object(None));
    s.put_object(11, object(Some(10)));
    s.put_object(12, object(Some(11)));
    s.put_object(20, object(None));
    let r = call(&mut s, 0x34, &[10, 128]);
    assert!(matches!(r, Ok((NativeValue::Void, Some(Graph90Request::RefreshMembers { object: 10, setting: MemberSetting::MaskAlpha })))));
    assert_eq!(s.objects[&10].mask_alpha, 128);
    assert_eq!(s.objects[&11].mask_alpha, 128);
    assert_eq!(s.objects[&12].mask_alpha, 128);
    assert_eq!(s.objects[&20].mask_alpha, 0);
    call(&mut s, 0x35, &[11, 2]).unwrap();
    assert_eq!(s.objects[&11].fixed_parameter, 0x20000);
    assert_eq!(s.objects[&12].fixed_parameter, 0x20000);
    assert_eq!(s.objects[&10].fixed_parameter, 0);
    call(&mut s, 0x39, &[20, 64]).unwrap();
    assert_eq!(s.objects[&20].alpha_multiplier, 64);
    assert_eq!(s.objects[&10].alpha_multiplier, 256);
}

#[test]
fn graph90_checks_range_before_registration() {
    let mut s = Graph90State::new();
    s.put_object(10, object(None));
    assert_eq!(call(&mut s, 0x34, &[99, 257]).unwrap_err(), Graph90Error::OutOfRange(257));
    assert_eq!(call(&mut s, 0x39, &[99, -1]).unwrap_err(), Graph90Error::OutOfRange(-1));
    assert_eq!(call(&mut s, 0x34, &[99, 256]).unwrap_err(), Graph90Error::NotRegistered(99));
    assert_eq!(call(&mut s, 0x3A, &[10, 0x10000]).unwrap_err(), Graph90Error::PriorityOutOfRange(0x10000));
    assert_eq!(call(&mut s, 0x3A, &[99, 5]).unwrap_err(), Graph90Error::NotRegistered(99));
    let r = call(&mut s, 0x3A, &[10, 0xFFFF]);
    assert!(matches!(r, Ok((NativeValue::Void, Some(Graph90Request::Reorder { object: 10, priority: 0xFFFF })))));
    assert_eq!(s.objects[&10].priority, 0xFFFF);
    assert_eq!(call(&mut s, 0x3F, &[10]).unwrap_err(), Graph90Error::Unsupported(10));
    assert_eq!(call(&mut s, 0x3F, &[11]).unwrap_err(), Graph90Error::NotRegistered(11));
    assert_eq!(call(&mut s, 0x33, &[11, 1, 2]).unwrap_err(), Graph90Error::NotRegistered(11));
    let r = call(&mut s, 0x33, &[10, 100, 200]);
    assert!(matches!(r, Ok((NativeValue::Void, Some(Graph90Request::SetPosition { object: 10, x: 100, y: 200 })))));
    let r = call(&mut s, 0x37, &[10, 3, 4]);
    assert!(matches!(r, Ok((NativeValue::Void, Some(Graph90Request::SetOffset { object: 10, secondary: true, x: 3, y: 4 })))));
}

#[test]
fn graph90_allocates_first_free_handle_and_releases_by_class() {
    let mut s = Graph90State::new();
    assert!(matches!(call(&mut s, 0x50, &[]), Ok((NativeValue::Int(h), None)) if h == SPRITE_BASE));
    assert!(matches!(call(&mut s, 0x50, &[]), Ok((NativeValue::Int(h), None)) if h == SPRITE_BASE + 1));
    assert_eq!(SPRITE_BASE, i32::MIN);
    let sprite = &s.objects[&SPRITE_BASE];
    assert_eq!(sprite.class, Some(1));
    assert!(sprite.enabled);
    assert!(!sprite.draw_enabled);
    // A filter handle does not release a sprite.
    call(&mut s, 0x61, &[SPRITE_BASE]).unwrap();
    assert!(s.objects.contains_key(&SPRITE_BASE));
    call(&mut s, 0x51, &[SPRITE_BASE]).unwrap();
    assert!(!s.objects.contains_key(&SPRITE_BASE));
    assert!(matches!(call(&mut s, 0x50, &[]), Ok((NativeValue::Int(h), None)) if h == SPRITE_BASE));
    assert!(matches!(call(&mut s, 0x60, &[]), Ok((NativeValue::Int(h), None)) if h == FILTER_BASE));
    assert_eq!(s.objects[&FILTER_BASE].blend_mode, 192);
    assert_eq!(s.objects[&FILTER_BASE].mode, 7);
    assert!(matches!(call(&mut s, 0x70, &[]), Ok((NativeValue::Int(h), None)) if h == MAP_BASE));
    assert_eq!(s.objects[&MAP_BASE].mode, 1);
    call(&mut s, 0x74, &[MAP_BASE, 0]).unwrap();
    assert!(!s.objects[&MAP_BASE].enabled);
    call(&mut s, 0x54, &[SPRITE_BASE + 1, 1]).unwrap();
    assert!(s.objects[&(SPRITE_BASE + 1)].draw_enabled);
    call(&mut s, 0x55, &[SPRITE_BASE + 1, 77]).unwrap();
    assert_eq!(s.objects[&(SPRITE_BASE + 1)].aux_bitmap, Some(77));
    call(&mut s, 0x55, &[SPRITE_BASE + 1, -1]).unwrap();
    assert_eq!(s.objects[&(SPRITE_BASE + 1)].aux_bitmap, None);
}

#[test]
fn graph90_eight_filters_then_none() {
    let mut s = Graph90State::new();
    for k in 0..8 {
        assert!(matches!(call(&mut s, 0x60, &[]), Ok((NativeValue::Int(h), None)) if h == FILTER_BASE + k));
    }
    assert!(matches!(call(&mut s, 0x60, &[]), Ok((NativeValue::Int(0), None))));
}

#[test]
fn graph90_current_object_drawing_and_mode() {
    let mut s = Graph90State::new();
    assert!(matches!(call(&mut s, 0x4D, &[]), Ok((NativeValue::Int(0), None))));
    assert!(s.objects.contains_key(&0));
    call(&mut s, 0x4C, &[0, 9]).unwrap();
    assert!(!s.objects[&0].draw_enabled);
    assert_eq!(s.renderer_options, (0, 9));
    assert_eq!(s.redraw_requested, Some(true));
}

#[test]
fn graph90_fullwidth_glyph_strip_cells() {
    let mut s = Graph90State::new();
    s.set_bitmap_width(5, 320);
    call(&mut s, 0x9E, &[5, 10]).unwrap();
    assert_eq!(s.glyph_strip, (Some(5), 10, 32));
    call(&mut s, 0x9E, &[5, 3]).unwrap();
    assert_eq!(s.glyph_strip, (Some(5), 10, 32));
    call(&mut s, 0x9E, &[6, 10]).unwrap();
    assert_eq!(s.glyph_strip, (Some(5), 10, 32));
    call(&mut s, 0x9E, &[5, 0]).unwrap();
    assert_eq!(s.glyph_strip, (None, 0, 0));
}

#[test]
fn graph90_bitmap_operations_go_to_the_host() {
    let mut s = Graph90State::new();
    let r = call(&mut s, 0x1B, &[1, 2, 3, 4]);
    match r {
        Ok((NativeValue::Void, Some(Graph90Request::BitmapOperation { operation, args }))) => {
            assert_eq!(operation, Graph90BitmapOperation::Copy);
            assert_eq!(args, vec![4, 3, 2, 1]);
        }
        _ => panic!("expected a bitmap operation"),
    }
    let r = call(&mut s, 0xC2, &[7, 8, 1]);
    assert!(matches!(r, Ok((NativeValue::Void, Some(Graph90Request::FlipBitmap { destination: 7, source: 8, direction: 1 })))));
    assert!(matches!(call(&mut s, 0xBD, &[1, 2]), Ok((NativeValue::Int(0), None))));
}

#[test]
fn graph90_leaves_other_calls_untouched() {
    let mut s = Graph90State::new();
    let mut stack = ints(&[1, 2, 3]);
    assert!(s.dispatch_native_graph(0x90, 0x21, &mut stack).is_none());
    assert_eq!(stack.len(), 3);
    assert!(s.dispatch_native_graph(0x91, 0x0A, &mut stack).is_none());
    assert_eq!(stack.len(), 3);
}

#[test]
fn graph90_member_setting_twice_is_once() {
    let mut s = Graph90State::new();
    s.put_object(10, object(None));
    s.put_object(11, object(Some(10)));
    call(&mut s, 0x39, &[10, 100]).unwrap();
    let first: Vec<i32> = [10, 11].iter().map(|h| s.objects[h].alpha_multiplier).collect();
    call(&mut s, 0x39, &[10, 100]).unwrap();
    let second: Vec<i32> = [10, 11].iter().map(|h| s.objects[h].alpha_multiplier).collect();
    assert_eq!(first, vec![100, 100]);
    assert_eq!(first, second);
}

#[test]
fn graph90_release_after_allocation_restores_table() {
    let mut s = Graph90State::new();
    s.put_object(10, object(None));
    let before: Vec<i32> = {
        let mut k: Vec<i32> = s.objects.keys().copied().collect();
        k.sort();
        k
    };
    let h = match call(&mut s, 0x50, &[]) {
        Ok((NativeValue::Int(h), None)) => h,
        _ => panic!("expected a handle"),
    };
    assert!(s.objects.contains_key(&h));
    call(&mut s, 0x51, &[h]).unwrap();
    let mut after: Vec<i32> = s.objects.keys().copied().collect();
    after.sort();
    assert_eq!(before, after);
}

#[test]
fn graph90_filter_and_map_common_state() {
    let mut s = Graph90State::new();
    call(&mut s, 0x60, &[]).unwrap();
    call(&mut s, 0x70, &[]).unwrap();
    let r = call(&mut s, 0x65, &[FILTER_BASE, 9, 128, 300]);
    assert!(matches!(r, Ok((NativeValue::Void, Some(Graph90Request::CommonState { object, alpha: 128, reorder: true }))) if object == FILTER_BASE));
    assert_eq!(s.objects[&FILTER_BASE].priority, 300);
    assert_eq!(s.objects[&FILTER_BASE].filter_parameters, (0, 9, 0));
    let r = call(&mut s, 0x66, &[FILTER_BASE, 1, 2, -1, 4, 64, 0x10000]);
    assert!(matches!(r, Ok((NativeValue::Void, Some(Graph90Request::CommonState { alpha: 64, reorder: false, .. })))));
    assert_eq!(s.objects[&FILTER_BASE].priority, 300);
    assert_eq!(s.objects[&FILTER_BASE].resource, None);
    assert_eq!(s.objects[&FILTER_BASE].filter_parameters, (1, 2, 4));
    call(&mut s, 0x75, &[MAP_BASE, 10, 20, 33, 5, 256, 7]).unwrap();
    let map = &s.objects[&MAP_BASE];
    assert_eq!(map.position, (10, 20));
    assert_eq!(map.resource, Some(33));
    assert_eq!(map.blend_mode, 5);
    assert_eq!(map.priority, 7);
    // A map handle is not a filter.
    assert!(matches!(call(&mut s, 0x65, &[MAP_BASE, 1, 2, 3]), Ok((NativeValue::Void, None))));
}

#[test]
fn graph90_map_layout_calls() {
    let mut s = Graph90State::new();
    call(&mut s, 0x70, &[]).unwrap();
    call(&mut s, 0x76, &[MAP_BASE, 16, 12, 32, 24]).unwrap();
    call(&mut s, 0x78, &[MAP_BASE, 640, 480, 0x1000]).unwrap();
    call(&mut s, 0x79, &[MAP_BASE, 1, 2, 3, 4, 1]).unwrap();
    call(&mut s, 0x7A, &[MAP_BASE, 9]).unwrap();
    let map = &s.objects[&MAP_BASE];
    assert_eq!(map.map_grid, (16, 12, 32, 24));
    assert_eq!(map.map_source, (640, 480, 0x1000));
    assert_eq!(map.map_view, (1, 2, 3, 4, 1));
    assert_eq!(map.map_replace_tile, 9);
    // Too few arguments empty the stack and change nothing.
    let mut stack = ints(&[MAP_BASE]);
    assert!(matches!(s.dispatch_native_graph(0x90, 0x7A, &mut stack), Some(Ok((NativeValue::Void, None)))));
    assert!(stack.is_empty());
    assert_eq!(s.objects[&MAP_BASE].map_replace_tile, 9);
}
