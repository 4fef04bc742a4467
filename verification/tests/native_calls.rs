use ethornell_app::graph91_calls::Graph91Request;
use ethornell_app::native_call::{pop_int_value, pop_string_value, NativeValue};
use ethornell_app::native_sound::{AudioAsset, SoundRequest};
use ethornell_app::native_system_ext::SystemInputState;
use ethornell_app::native_graph_sys92::{System92Error, System92Request};
use ethornell_app::native_user::{modeless_dialog_text, NativeUserState, MAX_DEBUG_WINDOWS};
use ethornell_app::native_user_calls::{debug_text_extent, swap_red_blue_bytes, UserCallError, UserDialogRequest, UserHostRequest};
use ethornell_app::runtime::RuntimeTraceApi;
use ethornell_app::scene::{sprite_target_opacity, ScenarioSpriteClass};
use ethornell_app::shift_jis::{decode_native_text, encode_native_text, shift_jis_len};

fn int_of(value: &NativeValue) -> Option<i32> {
    match value {
        NativeValue::Int(v) => Some(*v),
        _ => None,
    }
}

#[test]
fn arguments_pop_from_the_top_with_defaults() {
    let mut args = vec![NativeValue::Str("name".to_string()), NativeValue::Int(7)];
    assert_eq!(pop_int_value(&mut args, 128), 7);
    assert_eq!(pop_int_value(&mut args, 128), 128);
    assert!(args.is_empty());
    assert_eq!(pop_int_value(&mut args, -1), -1);

    let mut args = vec![NativeValue::Str("bgm01".to_string()), NativeValue::Int(3)];
    assert_eq!(pop_string_value(&mut args), "");
    assert_eq!(pop_string_value(&mut args), "bgm01");
    assert_eq!(pop_string_value(&mut args), "");
}

#[test]
fn sound_channel_count_call_returns_twenty() {
    let mut rt = RuntimeTraceApi::new(800, 600);
    let mut args = vec![NativeValue::Int(9)];
    let out = rt.dispatch_native_sound(0xA0, 0x00, &mut args).expect("owned call");
    assert_eq!(int_of(&out.0), Some(20));
    assert!(out.1.is_none());
    assert_eq!(args.len(), 1);
}

#[test]
fn calls_outside_the_sound_group_are_not_taken() {
    let mut rt = RuntimeTraceApi::new(800, 600);
    let mut args = vec![NativeValue::Int(1), NativeValue::Int(2)];
    assert!(rt.dispatch_native_sound(0xA1, 0x00, &mut args).is_none());
    assert!(rt.dispatch_native_sound(0xA0, 0x01, &mut args).is_none());
    assert_eq!(args.len(), 2);
}

#[test]
fn primary_bgm_gain_bank_call_lowers_the_channel_mix() {
    let mut rt = RuntimeTraceApi::new(800, 600);
    let before = rt.native_bgm_effective_volume(2);
    let mut args = vec![NativeValue::Int(2), NativeValue::Int(0)];
    let out = rt.dispatch_native_sound(0xA0, 0x08, &mut args).expect("owned call");
    assert!(matches!(out.0, NativeValue::Void));
    assert!(out.1.is_none());
    assert!(args.is_empty());
    assert_eq!(before, 128);
    assert_eq!(rt.native_bgm_effective_volume(2), 0);
}

#[test]
fn bgm_load_call_hands_the_file_to_the_host() {
    let mut rt = RuntimeTraceApi::new(800, 600);
    let mut args = vec![NativeValue::Int(3), NativeValue::Str("bgm01".to_string()), NativeValue::Int(100)];
    let out = rt.dispatch_native_sound(0xA0, 0x10, &mut args).expect("owned call");
    assert!(matches!(out.0, NativeValue::Void));
    assert!(args.is_empty());
    match out.1 {
        Some(SoundRequest::LoadBgm { channel, archive, file, looped, volume, pan }) => {
            assert_eq!(channel, 3);
            assert_eq!(archive, "");
            assert_eq!(file, "bgm01");
            assert!(!looped);
            assert_eq!(volume, 100);
            assert_eq!(pan, None);
            let asset = AudioAsset { archive: "data01".to_string(), file: file.clone() };
            assert!(rt.complete_bgm_load(channel, Some(asset), looped, volume, pan));
            assert!(!rt.complete_bgm_load(channel, None, looped, volume, pan));
        },
        other => panic!("unexpected request {other:?}"),
    }
}

#[test]
fn shift_jis_text_round_trips() {
    let bytes = encode_native_text("aあ");
    assert_eq!(bytes, vec![0x61, 0x82, 0xA0]);
    assert_eq!(shift_jis_len("aあ"), 3);
    assert_eq!(decode_native_text(&bytes), "aあ");
    assert_eq!(decode_native_text(&[0x83, 0x41]), "ア");
}

#[test]
fn effect_sprites_settle_at_their_opacity() {
    assert_eq!(sprite_target_opacity("EF_Soft01", ScenarioSpriteClass::Effect), 28);
    assert_eq!(sprite_target_opacity("ef_sepia2", ScenarioSpriteClass::Effect), 42);
    assert_eq!(sprite_target_opacity("ef_rain", ScenarioSpriteClass::Effect), 50);
    assert_eq!(sprite_target_opacity("ef_soft", ScenarioSpriteClass::Background), 100);
}

#[test]
fn modeless_overlay_lines_show_sliders_and_toggles() {
    let lines = modeless_dialog_text(5, [64, 0, 128, -3, 200, 1, 0, 1, 0]);
    let expected = [
        "BGI modeless control #5",
        "Five native 0..128 controls",
        "Value 0: [============------------]  64",
        "Value 1: [------------------------]   0",
        "Value 2: [========================] 128",
        "Value 3: [------------------------]   0",
        "Value 4: [========================] 128",
        "Option 5: ( ) 0     (*) 1",
        "Option 6: (*) 0     ( ) 1",
        "Option 7: (*) 1     ( ) 0",
        "Option 8: ( ) 1     (*) 0",
        "[ Close ]",
    ];
    assert_eq!(lines, expected.iter().map(|s| s.to_string()).collect::<Vec<_>>());
}

#[test]
fn debug_windows_fill_every_slot_then_refuse() {
    let mut state = NativeUserState::new();
    for k in 0..MAX_DEBUG_WINDOWS {
        assert_eq!(
            state.allocate_debug_window(format!("w{k}"), 0, 0, 16, 16),
            Some((0xFF00_0000u32 | k as u32) as i32)
        );
    }
    assert_eq!(state.allocate_debug_window(String::new(), 0, 0, 16, 16), None);
}

fn user_call(rt: &mut RuntimeTraceApi, id: u8, args: &mut Vec<NativeValue>) -> Result<Option<i32>, UserCallError> {
    match rt.dispatch_native_user(0xB0, id, args).expect("window or edit call") {
        Ok(v) => Ok(int_of(&v)),
        Err(e) => Err(e),
    }
}

#[test]
fn debug_window_calls_follow_the_handle() {
    let mut rt = RuntimeTraceApi::new(800, 600);
    let mut args = vec![
        NativeValue::Str("dbg".to_string()),
        NativeValue::Int(10),
        NativeValue::Int(20),
        NativeValue::Int(64),
        NativeValue::Int(48),
    ];
    let handle = 0xFF00_0000u32 as i32;
    assert_eq!(user_call(&mut rt, 0x10, &mut args), Ok(Some(handle)));
    assert!(args.is_empty());
    assert_eq!(rt.native_user.debug_window(handle).map(|w| (w.x, w.y, w.title.clone())), Some((10, 20, "dbg".to_string())));

    let mut args = vec![NativeValue::Int(handle), NativeValue::Int(5), NativeValue::Int(6)];
    assert_eq!(user_call(&mut rt, 0x16, &mut args), Ok(None));
    let mut args = vec![NativeValue::Int(handle)];
    assert_eq!(user_call(&mut rt, 0x17, &mut args), Ok(Some(6)));
    assert_eq!(args.len(), 1);
    assert_eq!(int_of(&args[0]), Some(5));

    let mut args = vec![
        NativeValue::Int(handle),
        NativeValue::Int(0),
        NativeValue::Int(0),
        NativeValue::Str("abc".to_string()),
        NativeValue::Int(1),
        NativeValue::Int(10),
        NativeValue::Int(0),
        NativeValue::Int(0),
        NativeValue::Int(0),
        NativeValue::Int(256),
    ];
    assert_eq!(user_call(&mut rt, 0x1A, &mut args), Ok(Some(15)));
    assert_eq!(rt.native_user.debug_window(handle).map(|w| w.text_draws.len()), Some(1));

    let mut args = vec![NativeValue::Int(handle)];
    assert_eq!(user_call(&mut rt, 0x11, &mut args), Ok(None));
    let mut args = vec![NativeValue::Int(handle)];
    assert_eq!(user_call(&mut rt, 0x17, &mut args), Err(UserCallError::InvalidDebugHandle { call: 0x17, handle }));
}

#[test]
fn debug_window_calls_refuse_bad_arguments() {
    let mut rt = RuntimeTraceApi::new(800, 600);
    let mut args = vec![
        NativeValue::Str(String::new()),
        NativeValue::Int(0),
        NativeValue::Int(0),
        NativeValue::Int(16),
        NativeValue::Int(64),
    ];
    assert_eq!(
        user_call(&mut rt, 0x10, &mut args),
        Err(UserCallError::InvalidDebugWindowSize { width: 16, height: 64 })
    );
    let mut args = vec![
        NativeValue::Int(0xFF00_0000u32 as i32),
        NativeValue::Int(0),
        NativeValue::Int(0),
        NativeValue::Int(0x4000),
        NativeValue::Int(0),
        NativeValue::Int(128),
    ];
    assert_eq!(user_call(&mut rt, 0x19, &mut args), Err(UserCallError::InvalidDebugBitmap));
    assert!(args.is_empty());
    assert_eq!(debug_text_extent(3, 0), 2);
    assert_eq!(debug_text_extent(3, 10), 15);
}

#[test]
fn edit_box_calls_configure_and_report() {
    let mut rt = RuntimeTraceApi::new(800, 600);
    let config = |x: i32, width: i32| {
        vec![
            NativeValue::Int(x),
            NativeValue::Int(20),
            NativeValue::Int(width),
            NativeValue::Int(30),
            NativeValue::Int(1),
            NativeValue::Int(16),
            NativeValue::Int(64),
            NativeValue::Int(1),
        ]
    };
    assert_eq!(user_call(&mut rt, 0x20, &mut config(750, 100)), Err(UserCallError::InvalidEditControl));
    assert_eq!(user_call(&mut rt, 0x23, &mut Vec::new()), Ok(Some(0)));
    assert_eq!(user_call(&mut rt, 0x20, &mut config(10, 100)), Ok(None));
    assert!(rt.native_user.edit.active && rt.native_user.edit.focused);
    assert_eq!(rt.native_user.edit.max_chars, 64);
    assert_eq!(user_call(&mut rt, 0x23, &mut Vec::new()), Ok(Some(1)));
    assert_eq!(user_call(&mut rt, 0x22, &mut vec![NativeValue::Int(300)]), Ok(Some(0)));
    assert_eq!(user_call(&mut rt, 0x22, &mut vec![NativeValue::Int(150)]), Ok(Some(1)));
    assert_eq!(rt.native_user.edit.font_scale, 150);
    assert_eq!(user_call(&mut rt, 0x26, &mut vec![NativeValue::Str("abc".to_string())]), Ok(None));
    assert_eq!(user_call(&mut rt, 0x27, &mut vec![NativeValue::Int(0)]), Ok(Some(3)));
    assert_eq!(user_call(&mut rt, 0x25, &mut vec![NativeValue::Int(0x123456)]), Ok(None));
    assert_eq!(rt.native_user.edit.color, 0x563412);
    assert_eq!(swap_red_blue_bytes(0x00AB_CDEF), 0x00EF_CDAB);
    assert_eq!(user_call(&mut rt, 0x21, &mut Vec::new()), Ok(Some(1)));
    assert_eq!(user_call(&mut rt, 0x23, &mut Vec::new()), Ok(Some(0)));
    assert!(rt.dispatch_native_user(0xB1, 0x21, &mut Vec::new()).is_none());
    assert!(rt.dispatch_native_user(0xB0, 0x80, &mut Vec::new()).is_none());
}

fn object_call(rt: &mut RuntimeTraceApi, id: u8, args: &mut Vec<NativeValue>) -> (Option<i32>, Option<Graph91Request>) {
    let (value, request) = rt.dispatch_system91_55_7f(0x91, id, args).expect("effector or landscape call");
    (int_of(&value), request)
}

#[test]
fn effector_calls_create_configure_and_release() {
    let mut rt = RuntimeTraceApi::new(800, 600);
    let handle = 0x9100_0000u32 as i32;
    assert_eq!(object_call(&mut rt, 0x60, &mut Vec::new()), (Some(handle), None));
    let mut args = vec![NativeValue::Int(handle), NativeValue::Int(0)];
    assert_eq!(
        object_call(&mut rt, 0x64, &mut args),
        (None, Some(Graph91Request::ObjectEnabled { handle, enabled: false }))
    );
    assert!(!rt.graph91.effectors[&handle].enabled);
    let mut args = vec![NativeValue::Int(handle), NativeValue::Int(7), NativeValue::Int(300)];
    assert_eq!(object_call(&mut rt, 0x69, &mut args), (None, None));
    let effector = rt.graph91.effectors[&handle];
    assert_eq!((effector.mode, effector.parameters[0], effector.priority), (4, 7, 300));
    let mut args = vec![NativeValue::Int(9), NativeValue::Int(handle)];
    assert_eq!(object_call(&mut rt, 0x61, &mut args), (None, None));
    assert_eq!(int_of(&args[0]), Some(9));
    assert!(rt.graph91.effectors.is_empty());
}

#[test]
fn landscape_calls_place_and_prioritise() {
    let mut rt = RuntimeTraceApi::new(800, 600);
    let handle = 0xA100_0000u32 as i32;
    let mut args: Vec<NativeValue> = [64, 16, 16, 0, 1, 1].iter().map(|v| NativeValue::Int(*v)).collect();
    assert_eq!(object_call(&mut rt, 0x70, &mut args), (Some(handle), None));
    let mut args: Vec<NativeValue> = [handle, 10, 20, 1, 128, 70000].iter().map(|v| NativeValue::Int(*v)).collect();
    assert_eq!(object_call(&mut rt, 0x75, &mut args), (None, None));
    assert_eq!(rt.graph91.landscapes[&handle].x, 0);
    let mut args: Vec<NativeValue> = [handle, 10, 20, 1, 128, 5].iter().map(|v| NativeValue::Int(*v)).collect();
    assert_eq!(
        object_call(&mut rt, 0x75, &mut args),
        (None, Some(Graph91Request::ObjectPriority { handle, priority: 5 }))
    );
    let landscape = &rt.graph91.landscapes[&handle];
    assert_eq!((landscape.x, landscape.y, landscape.alpha, landscape.priority), (10, 20, 128, 5));
    let mut args = vec![NativeValue::Int(handle)];
    assert_eq!(object_call(&mut rt, 0x71, &mut args), (None, None));
    assert!(rt.graph91.landscapes.is_empty());
}

#[test]
fn object_calls_with_short_stacks_or_other_ids() {
    let mut rt = RuntimeTraceApi::new(800, 600);
    let mut args = vec![NativeValue::Int(3), NativeValue::Int(4)];
    assert_eq!(
        object_call(&mut rt, 0x55, &mut args),
        (None, Some(Graph91Request::SpriteRelation { sprite: 3, linked: 4 }))
    );
    assert_eq!(object_call(&mut rt, 0x55, &mut Vec::new()), (Some(255), None));
    let mut args = vec![NativeValue::Int(1), NativeValue::Int(2)];
    assert_eq!(object_call(&mut rt, 0x65, &mut args), (None, None));
    assert!(args.is_empty());
    let mut args = vec![NativeValue::Int(1)];
    assert!(rt.dispatch_system91_55_7f(0x91, 0x56, &mut args).is_none());
    assert!(rt.dispatch_system91_55_7f(0x92, 0x60, &mut args).is_none());
    assert_eq!(args.len(), 1);
}

fn system_state() -> SystemInputState {
    SystemInputState {
        pending_input_descriptor: None,
        pending_input_state: None,
        pending_input_consumed: false,
        input_latched_state: 0,
        message_auxiliary_input_mask: 0,
        system_mode_flag: 3,
        pending_window_minimize: false,
        window_mode: 0,
        input_requires_focus: false,
        system_config_input_mode: 0,
        frame_yield_requested: false,
        mouse_left_descriptor: 0x201,
    }
}

#[test]
fn system_calls_synthesise_and_query_input() {
    let mut s = system_state();
    assert_eq!(s.dispatch_native_system_ext(0x81, 0x1E, &mut vec![NativeValue::Int(2)]).as_ref().and_then(int_of), Some(0));
    assert_eq!(s.pending_input_descriptor, None);
    assert_eq!(s.dispatch_native_system_ext(0x81, 0x1E, &mut vec![NativeValue::Int(1)]).as_ref().and_then(int_of), Some(1));
    assert_eq!((s.pending_input_descriptor, s.pending_input_state), (Some(0x201), Some(6)));
    let mut args = vec![NativeValue::Int(6), NativeValue::Int(0x201)];
    assert_eq!(s.dispatch_native_system_ext(0x81, 0x10, &mut args).as_ref().and_then(int_of), Some(1));
    let mut args = vec![NativeValue::Int(5), NativeValue::Int(0x201)];
    assert_eq!(s.dispatch_native_system_ext(0x81, 0x10, &mut args).as_ref().and_then(int_of), Some(0));
    assert_eq!(s.dispatch_native_system_ext(0x81, 0x04, &mut vec![NativeValue::Int(49)]).as_ref().and_then(int_of), Some(0));
    assert_eq!(s.dispatch_native_system_ext(0x81, 0x04, &mut vec![NativeValue::Int(60_000)]).as_ref().and_then(int_of), Some(1));
}

#[test]
fn system_calls_set_window_state_and_drop_arguments() {
    let mut s = system_state();
    assert_eq!(s.dispatch_native_system_ext(0x81, 0x68, &mut vec![NativeValue::Int(2)]).as_ref().and_then(int_of), Some(0));
    assert_eq!(s.dispatch_native_system_ext(0x81, 0x68, &mut vec![NativeValue::Int(1)]).as_ref().and_then(int_of), Some(2));
    assert_eq!(s.dispatch_native_system_ext(0x81, 0x61, &mut Vec::new()).as_ref().and_then(int_of), Some(3));
    assert_eq!(s.dispatch_native_system_ext(0x81, 0xED, &mut vec![NativeValue::Int(4)]).as_ref().and_then(int_of), Some(4));
    assert_eq!(s.dispatch_native_system_ext(0x81, 0xEC, &mut vec![NativeValue::Int(9)]).as_ref().and_then(int_of), Some(4));
    let mut args: Vec<NativeValue> = (0..5).map(NativeValue::Int).collect();
    assert_eq!(s.dispatch_native_system_ext(0x81, 0x1D, &mut args).as_ref().and_then(int_of), Some(i32::MIN + 1));
    assert_eq!(args.len(), 3);
    let mut args: Vec<NativeValue> = (0..5).map(NativeValue::Int).collect();
    assert!(matches!(s.dispatch_native_system_ext(0x81, 0xF2, &mut args), Some(NativeValue::Void)));
    assert!(args.is_empty() && s.frame_yield_requested);
    assert!(s.dispatch_native_system_ext(0x81, 0x05, &mut args).is_none());
    assert!(s.dispatch_native_system_ext(0x80, 0x61, &mut args).is_none());
}

#[test]
fn user_calls_drive_modeless_dialogs_and_fonts() {
    let mut rt = RuntimeTraceApi::new(800, 600);
    let handle = rt.create_user_modeless_dialog([0; 9]).expect("a dialog");
    assert_eq!(user_call(&mut rt, 0xA2, &mut vec![NativeValue::Int(handle), NativeValue::Int(1)]), Ok(Some(1)));
    assert!(rt.has_visible_user_modeless_dialog());
    assert_eq!(user_call(&mut rt, 0xA1, &mut vec![NativeValue::Int(handle)]), Ok(Some(1)));
    assert_eq!(user_call(&mut rt, 0xA1, &mut vec![NativeValue::Int(handle)]), Ok(Some(0)));
    assert_eq!(user_call(&mut rt, 0xA2, &mut vec![NativeValue::Int(handle), NativeValue::Int(1)]), Ok(Some(0)));

    assert_eq!(user_call(&mut rt, 0xC0, &mut vec![NativeValue::Str("MS Gothic".to_string())]), Ok(Some(1)));
    assert_eq!(user_call(&mut rt, 0xC0, &mut vec![NativeValue::Str("MS Gothic".to_string())]), Ok(Some(1)));
    let mut args = vec![NativeValue::Str("Mincho".to_string()), NativeValue::Int(0)];
    assert_eq!(user_call(&mut rt, 0xC1, &mut args), Ok(Some(2)));
    assert!(args.is_empty());

    let mut args: Vec<NativeValue> = (0..4).map(NativeValue::Int).collect();
    assert_eq!(user_call(&mut rt, 0xA0, &mut args), Ok(Some(0)));
    assert_eq!(args.len(), 1);
    assert_eq!(user_call(&mut rt, 0xA3, &mut args), Ok(Some(-2)));
    assert!(args.is_empty());
}

fn message_call(rt: &mut RuntimeTraceApi, id: u8, args: &mut Vec<NativeValue>) -> (Option<i32>, Option<UserDialogRequest>) {
    let (value, request) = rt.dispatch_native_user_message(0xB0, id, args).expect("message call");
    (int_of(&value), request)
}

fn last_dialog(rt: &RuntimeTraceApi) -> (u16, Vec<String>) {
    let last = rt.native_user.dialog_history.back().expect("a recorded dialog");
    (last.selector, last.arguments.clone())
}

#[test]
fn message_calls_block_or_hand_over_the_box() {
    let mut rt = RuntimeTraceApi::new(800, 600);
    assert_eq!(message_call(&mut rt, 0x83, &mut vec![NativeValue::Str("T".to_string())]).0, None);
    assert_eq!(rt.native_user.message_box_title, "T");
    let (value, request) = message_call(&mut rt, 0x80, &mut vec![NativeValue::Str("hello".to_string())]);
    assert!(value.is_none() && request.is_none());
    assert!(rt.native_user.has_blocking_message() && rt.frame_yield_requested);
    assert_eq!(last_dialog(&rt), (0x80, vec!["hello".to_string()]));

    rt.native_dialog_presentation = true;
    match message_call(&mut rt, 0x80, &mut vec![NativeValue::Str("hi".to_string())]).1 {
        Some(UserDialogRequest::Message { title, message }) => assert_eq!((title.as_str(), message.as_str()), ("T", "hi")),
        other => panic!("unexpected request {other:?}"),
    }
}

#[test]
fn question_calls_take_the_scripted_answer_first() {
    let mut rt = RuntimeTraceApi::new(800, 600);
    rt.native_user.next_dialog_result = Some(6);
    let mut args = vec![NativeValue::Str("q".to_string()), NativeValue::Int(1)];
    assert_eq!(message_call(&mut rt, 0x81, &mut args).0, Some(1));
    assert_eq!(last_dialog(&rt), (0x81, vec!["q".to_string(), "1".to_string()]));
    assert_eq!(rt.native_user.next_dialog_result, None);

    let mut args = vec![NativeValue::Str("q".to_string()), NativeValue::Int(1)];
    match message_call(&mut rt, 0x81, &mut args).1 {
        Some(UserDialogRequest::Question { ok_cancel, topmost, .. }) => assert!(!ok_cancel && topmost),
        other => panic!("unexpected request {other:?}"),
    }

    rt.native_user.next_dialog_result = Some(1);
    let mut args = vec![NativeValue::Str("ok?".to_string()), NativeValue::Int(1), NativeValue::Int(0)];
    assert_eq!(message_call(&mut rt, 0x82, &mut args).0, Some(1));
    assert_eq!(last_dialog(&rt), (0x82, vec!["ok?".to_string(), "1".to_string(), "0".to_string()]));

    let mut args = vec![
        NativeValue::Int(1),
        NativeValue::Int(2),
        NativeValue::Int(-3),
        NativeValue::Int(4),
        NativeValue::Str("x".to_string()),
    ];
    assert_eq!(message_call(&mut rt, 0x84, &mut args).0, Some(0));
    assert_eq!(args.len(), 1);
    assert_eq!(
        last_dialog(&rt),
        (0x84, vec!["x".to_string(), "4".to_string(), "-3".to_string(), "2".to_string()])
    );
    assert!(rt.dispatch_native_user_message(0xB0, 0x88, &mut args).is_none());
}

#[test]
fn shake_call_starts_a_shake_or_is_refused() {
    let mut rt = RuntimeTraceApi::new(800, 600);
    let shake = |mode: i32| -> Vec<NativeValue> {
        [mode, 8, 2, 3, 10, 60, 0].iter().map(|v| NativeValue::Int(*v)).collect()
    };
    assert_eq!(user_call(&mut rt, 0x08, &mut shake(5)), Err(UserCallError::InvalidShakeConfiguration));
    assert!(!rt.has_active_native_screen_shake());
    assert_eq!(user_call(&mut rt, 0x08, &mut shake(1)), Ok(None));
    assert!(rt.has_active_native_screen_shake());
    assert_eq!(rt.native_user.screen_shake.updates_per_second, 60);
}

fn window_call(rt: &mut RuntimeTraceApi, id: u8, args: &mut Vec<NativeValue>) -> Result<(Option<i32>, Option<UserHostRequest>), UserCallError> {
    match rt.dispatch_native_user_window(0xB0, id, args).expect("window call") {
        Ok((v, r)) => Ok((int_of(&v), r)),
        Err(e) => Err(e),
    }
}

#[test]
fn window_calls_place_centre_and_draw() {
    let mut rt = RuntimeTraceApi::new(800, 600);
    rt.native_user.window_surface_width = 640;
    rt.native_user.window_surface_height = 480;
    assert!(matches!(window_call(&mut rt, 0x02, &mut Vec::new()), Ok((Some(1), None))));
    assert_eq!(rt.native_user.pending_window_position, Some((80, 60)));
    let mut args = vec![NativeValue::Int(200), NativeValue::Int(100)];
    assert!(matches!(window_call(&mut rt, 0x03, &mut args), Ok((Some(0), None))));
    let mut args = vec![NativeValue::Int(160), NativeValue::Int(120)];
    assert!(matches!(window_call(&mut rt, 0x03, &mut args), Ok((Some(1), None))));
    assert_eq!(rt.native_user.pending_window_position, Some((160, 120)));
    rt.native_user.window_mode = 1;
    assert!(matches!(window_call(&mut rt, 0x02, &mut Vec::new()), Ok((Some(0), None))));

    let mut args = vec![NativeValue::Int(3), NativeValue::Int(4), NativeValue::Int(0x4000)];
    assert_eq!(window_call(&mut rt, 0x00, &mut args).err(), Some(UserCallError::InvalidGraphResource(0x4000)));
    let mut args = vec![NativeValue::Int(3), NativeValue::Int(4), NativeValue::Int(7)];
    assert!(matches!(
        window_call(&mut rt, 0x00, &mut args),
        Ok((None, Some(UserHostRequest::PlaceWindowBitmap { resource: 7, x: 3, y: 4 })))
    ));
    assert_eq!(rt.native_user.last_window_bitmap_draw, Some((3, 4, 7)));
}

#[test]
fn cursor_calls_bind_and_release_an_object() {
    let mut rt = RuntimeTraceApi::new(800, 600);
    rt.mouse_pos = Some((10, 20));
    let mut args = vec![NativeValue::Int(42), NativeValue::Int(2), NativeValue::Int(-3)];
    match window_call(&mut rt, 0x04, &mut args) {
        Ok((None, Some(UserHostRequest::CursorBinding { cursor_visible, object_enabled, object_position }))) => {
            assert!(!cursor_visible);
            assert_eq!(object_enabled, None);
            assert_eq!(object_position, Some((42, 12, 17)));
        },
        other => panic!("unexpected {other:?}"),
    }
    assert_eq!(rt.native_user.cursor_object, Some((42, 2, -3)));
    let mut args = vec![NativeValue::Int(0), NativeValue::Int(0), NativeValue::Int(0)];
    assert!(matches!(
        window_call(&mut rt, 0x04, &mut args),
        Ok((None, Some(UserHostRequest::CursorBinding { cursor_visible: true, .. })))
    ));
    assert_eq!(rt.native_user.cursor_object, None);
    assert!(matches!(
        window_call(&mut rt, 0x05, &mut vec![NativeValue::Int(3000)]),
        Ok((None, Some(UserHostRequest::CursorIdleTimeout(3000))))
    ));
}

#[test]
fn font_alias_calls_register_and_answer() {
    let mut rt = RuntimeTraceApi::new(800, 600);
    let s = |t: &str| NativeValue::Str(t.to_string());
    assert!(matches!(window_call(&mut rt, 0xC4, &mut vec![s("Gothic")]), Ok((Some(0), None))));
    assert!(matches!(window_call(&mut rt, 0xC7, &mut vec![s("Gothic"), s("MS Gothic")]), Ok((None, None))));
    rt.native_user.font_resources.push("data:MS Gothic".chars().collect());
    assert!(matches!(window_call(&mut rt, 0xC4, &mut vec![s("Gothic")]), Ok((Some(1), None))));
    assert!(matches!(window_call(&mut rt, 0xC6, &mut vec![s("Gothic"), s("MS Gothic")]), Ok((Some(1), None))));
    assert!(matches!(window_call(&mut rt, 0xC6, &mut vec![s("Gothic"), s("Mincho")]), Ok((Some(0), None))));
    assert!(matches!(window_call(&mut rt, 0xC6, &mut vec![s(""), s("")]), Ok((Some(0), None))));
    assert!(matches!(window_call(&mut rt, 0xC6, &mut vec![s("A"), s("A")]), Ok((Some(1), None))));
    assert!(rt.dispatch_native_user_window(0xB0, 0xC2, &mut Vec::new()).is_none());
}

#[test]
fn system92_checks_vector_maps_before_the_effects_engine() {
    let mut rt = RuntimeTraceApi::new(800, 600);
    let ripple = |bitmap: i32, mode: i32| -> Vec<NativeValue> {
        [bitmap, mode, 10, 20, 30].iter().map(|v| NativeValue::Int(*v)).collect()
    };
    assert_eq!(
        rt.dispatch_system92_00_1f(0x92, 0x10, &mut ripple(5, 1)).expect("call").err(),
        Some(System92Error::InvalidBitmap { call: 0x10, bitmap: 5 })
    );
    rt.graph91.bitmap_dimensions.insert(5, (4, 4));
    assert_eq!(
        rt.dispatch_system92_00_1f(0x92, 0x10, &mut ripple(5, 1)).expect("call").err(),
        Some(System92Error::NotVectorMap { call: 0x10, bitmap: 5 })
    );
    rt.graph91.bitmap_formats.insert(5, 6);
    assert_eq!(
        rt.dispatch_system92_00_1f(0x92, 0x10, &mut ripple(5, 2)).expect("call").err(),
        Some(System92Error::InvalidMode { call: 0x10, mode: 2 })
    );
    match rt.dispatch_system92_00_1f(0x92, 0x10, &mut ripple(5, 1)).expect("call") {
        Ok((NativeValue::Void, Some(System92Request::RippleMap { bitmap, mode, center_x, center_y, period }))) => {
            assert_eq!((bitmap, mode, center_x, center_y, period), (5, 1, 10, 20, 30));
        },
        other => panic!("unexpected {other:?}"),
    }
    let mut args = vec![NativeValue::Int(9)];
    assert!(matches!(rt.dispatch_system92_00_1f(0x92, 0x19, &mut args), Some(Ok((NativeValue::Int(0), None)))));
    let mut args = vec![NativeValue::Str("bg.bmp".to_string()), NativeValue::Str("ctx".to_string())];
    match rt.dispatch_system92_00_1f(0x92, 0x14, &mut args).expect("call") {
        Ok((_, Some(System92Request::Preload { resource, context }))) => assert_eq!((resource.as_str(), context.as_str()), ("bg.bmp", "ctx")),
        other => panic!("unexpected {other:?}"),
    }
    assert!(rt.dispatch_system92_00_1f(0x92, 0x20, &mut Vec::new()).is_none());
}
