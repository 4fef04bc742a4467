use std::collections::HashMap;

use ethornell_app::native_graph_ext::count_native_labels;
use ethornell_app::native_graph_sys91::{Bitmap, Graph91LandscapeState};
use ethornell_app::native_sound::{
    native_bgm_loop_file, native_mixer_volume, native_se_audio_channel, parse_native_cd_track_number,
    parse_native_cd_track_resource_name, AudioAsset, AudioCommand, ClockRequest, NATIVE_CD_AUDIO_CHANNEL,
};
use ethornell_app::native_system::split_native_command_line;
use ethornell_app::native_user::{
    is_debug_blend_mode, msvc_rand, ModelessControl, target_shake_random_average, truncate_shift_jis, KeyCode,
    NativeScreenShakeState, NativeUserState, DEBUG_WINDOW_HANDLE_PREFIX, MAX_DEBUG_WINDOWS, MAX_EDIT_TEXT_BYTES,
};
use ethornell_app::platform::{cursor_suppressed, normalize_platform_key, PortablePlatformStore};
use ethornell_app::resource_lookup::{character_sprite_aliases, scenario_image_aliases, split_body_expression};
use ethornell_app::runtime::{runtime_frame_size, runtime_text_style_at, RuntimeTextStyleSpan, RuntimeTraceApi};
use ethornell_app::scenario::{
    character_body_layer_for_pose, character_name, is_message_marker, is_message_text, last_two,
    looks_like_resource_name, looks_like_script_name, size_prefix,
};
use ethornell_app::snapshot::stable_framebuffer_hash;
use ethornell_app::scene::{
    background_layer_id_for_slot, classify_scenario_sprite, is_background_layer_id, is_viewport_sprite_class,
    place_scenario_sprite, scenario_layer_ids_for_slot, sprite_fade_frames, ScenarioSpriteClass,
};

fn asset(archive: &str, file: &str) -> AudioAsset {
    AudioAsset { archive: archive.to_string(), file: file.to_string() }
}

fn solid(width: u32, height: u32, pixel: [u8; 4]) -> Bitmap {
    let mut rgba = Vec::new();
    for _ in 0..width * height {
        rgba.extend_from_slice(&pixel);
    }
    Bitmap { width, height, rgba }
}

#[test]
fn native_label_extraction_is_case_insensitive() {
    assert_eq!(count_native_labels("a<L>one</L>b<l>two</l>"), 2);
    assert_eq!(count_native_labels("<l></l>"), 0);
}

#[test]
fn virtual_cd_track_names_follow_one_based_tmsf_numbering() {
    assert_eq!(parse_native_cd_track_number("track01"), Some(1));
    assert_eq!(parse_native_cd_track_number("CDDA_255"), Some(255));
    assert_eq!(parse_native_cd_track_number("audio-12"), Some(12));
    assert_eq!(parse_native_cd_track_number("00"), None);
    assert_eq!(parse_native_cd_track_number("track256"), None);
    assert_eq!(parse_native_cd_track_number("bgm01"), None);
}

#[test]
fn screen_shake_uses_target_msvc_crt_rand_sequence() {
    let mut seed = 1_u32;
    assert_eq!(msvc_rand(&mut seed), 41);
    assert_eq!(msvc_rand(&mut seed), 18_467);
    assert_eq!(msvc_rand(&mut seed), 6_334);
    assert_eq!(msvc_rand(&mut seed), 26_500);
}

#[test]
fn debug_blend_mode_matches_target_allowlist() {
    for mode in [0, 9, 0x20, 0x27, 0x40, 0x41, 0x80, 0xC0, 0xC1, 0xF0, 0xFF] {
        assert!(is_debug_blend_mode(mode), "mode {mode:#x}");
    }
    for mode in [-1, 0x0A, 0x1F, 0x28, 0x42, 0x81, 0xC2, 0xF1, 0x100] {
        assert!(!is_debug_blend_mode(mode), "mode {mode:#x}");
    }
}

#[test]
fn platform_keys_are_windows_case_and_separator_insensitive() {
    assert_eq!(
        normalize_platform_key(r"HKCU\\Software\\LumpOfSugar\\InstallDir"),
        "hkcu/software/lumpofsugar/installdir"
    );
    assert_eq!(
        normalize_platform_key("hkcu/software/LumpOfSugar/InstallDir"),
        "hkcu/software/lumpofsugar/installdir"
    );
}

#[test]
fn portable_store_supports_registry_style_lookups() {
    let mut store = PortablePlatformStore::new();
    store.set("hkcu/software/lumpofsugar/installdir", "/games/tayutama2".to_string());
    assert_eq!(store.get(r"HKCU\\SOFTWARE\\LumpOfSugar\\InstallDir"), Some("/games/tayutama2"));
}

#[test]
fn preserves_native_fixed_sound_fields_and_bank_separation() {
    assert_eq!(native_se_audio_channel(0), 0x100);
    assert_eq!(native_se_audio_channel(24), 0x118);
    assert_eq!(native_mixer_volume([128; 4]), 128);
    assert_eq!(native_mixer_volume([0, 128, 128, 128]), 0);
    assert!(native_mixer_volume([64, 128, 128, 128]) > 0);
    assert!(native_mixer_volume([64, 128, 128, 128]) < 128);
}

#[test]
fn debug_window_handles_use_target_tag_and_eight_slots() {
    let mut state = NativeUserState::new();
    for slot in 0..MAX_DEBUG_WINDOWS {
        let handle = state.allocate_debug_window(String::new(), 0, 0, 32, 32).expect("slot should exist");
        assert_eq!(handle as u32, DEBUG_WINDOW_HANDLE_PREFIX | slot as u32);
    }
    assert!(state.allocate_debug_window(String::new(), 0, 0, 32, 32).is_none());
}

#[test]
fn font_interning_preserves_target_metadata_modes() {
    let mut state = NativeUserState::new();
    let plain = state.intern_font("plain".to_string(), -1);
    assert_eq!(state.font("plain").unwrap().metadata_charset, None);
    let japanese = state.intern_font("jp".to_string(), 0);
    assert_eq!(state.font("jp").unwrap().metadata_charset, Some(128));
    let default_charset = state.intern_font("default".to_string(), 1);
    assert_eq!(state.font("default").unwrap().metadata_charset, Some(0));
    assert_ne!(plain, japanese);
    assert_ne!(japanese, default_charset);
}

#[test]
fn blocking_message_requires_explicit_acknowledgement() {
    let mut state = NativeUserState::new();
    state.begin_blocking_message("BGI".into(), "message".into());
    assert!(state.has_blocking_message());
    assert!(state.acknowledge_blocking_message());
    assert!(!state.has_blocking_message());
    assert!(!state.acknowledge_blocking_message());
}

#[test]
fn shake_finishes_and_restores_zero_offset() {
    let mut shake = NativeScreenShakeState::new();
    let mut rng_seed = 1_u32;
    assert!(shake.configure(2, 64, 1, 2, 50, 60, false));
    for _ in 0..300 {
        shake.tick(16, &mut rng_seed);
    }
    assert!(!shake.active);
    assert_eq!(shake.offset, (0, 0));
}

#[test]
fn shake_uses_target_cycle_step_and_reflection() {
    let mut shake = NativeScreenShakeState::new();
    let mut rng_seed = 1_u32;
    assert!(shake.configure(0, 32, 2, 1, 0, 8, false));
    assert_eq!(shake.updates_per_cycle, 4);
    shake.advance_one_update(&mut rng_seed);
    assert_eq!(shake.step_fixed, shake.current_amplitude_fixed);
    assert_eq!(shake.scalar_fixed, shake.current_amplitude_fixed);
    assert_eq!(shake.offset, (16, 0));
    shake.advance_one_update(&mut rng_seed);
    assert_eq!(shake.scalar_fixed, 0);
    assert!(shake.step_fixed < 0);
}

#[test]
fn edit_text_truncation_preserves_character_boundaries() {
    let text = "あ".repeat(200);
    let truncated = truncate_shift_jis(&text, MAX_EDIT_TEXT_BYTES);
    assert!(encoding_rs::SHIFT_JIS.encode(&truncated).0.len() <= MAX_EDIT_TEXT_BYTES);
}

#[test]
fn shift_jis_truncation_keeps_whole_double_byte_characters() {
    // Each kana is two bytes in Shift_JIS; five bytes hold two of them.
    assert_eq!(truncate_shift_jis("あいうえ", 5), "あい");
    assert_eq!(truncate_shift_jis("abc", 2), "ab");
    assert_eq!(truncate_shift_jis("abc", 10), "abc");
}

#[test]
fn cd_resource_names_need_a_track_prefix() {
    assert_eq!(parse_native_cd_track_resource_name("CDDA/Track02.ogg"), Some(2));
    assert_eq!(parse_native_cd_track_resource_name(r"cd\cd_07.wav"), Some(7));
    assert_eq!(parse_native_cd_track_resource_name("music/12.ogg"), None);
    assert_eq!(parse_native_cd_track_resource_name("bgm01.ogg"), None);
    assert_eq!(parse_native_cd_track_number("  Track 3 "), Some(3));
    assert_eq!(parse_native_cd_track_number("7"), Some(7));
    assert_eq!(parse_native_cd_track_number("track"), None);
    assert_eq!(parse_native_cd_track_number("track-x1"), None);
}

#[test]
fn mixer_volume_attenuates_three_eighths_per_step() {
    assert_eq!(native_mixer_volume([64, 128, 128, 128]), 104);
    assert_eq!(native_mixer_volume([100, 100, 100, 100]), 86);
    assert_eq!(native_mixer_volume([200, 255, 128, 129]), 128);
    assert_eq!(native_mixer_volume([1, 1, 1, 1]), 0);
}

#[test]
fn cd_device_lifecycle_reports_mode_while_open() {
    let mut api = RuntimeTraceApi::new(800, 600);
    assert_eq!(api.query_native_cd_audio_mode(), None);
    assert!(!api.open_native_cd_audio(HashMap::new()));
    assert_eq!(api.query_native_cd_audio_mode(), None);
    let mut tracks = HashMap::new();
    tracks.insert(1u8, asset("cdda", "track01.ogg"));
    assert!(api.open_native_cd_audio(tracks));
    assert_eq!(api.query_native_cd_audio_mode(), Some(3));
    assert!(!api.play_native_cd_track(2, 0));
    assert_eq!(api.query_native_cd_audio_mode(), Some(3));
    assert_eq!(api.sound.native_cd_audio.current_track, Some(2));
    assert!(api.play_native_cd_track(257, 1));
    assert_eq!(api.sound.native_cd_audio.current_track, Some(1));
    assert!(api.sound.native_cd_audio.notify_requested);
    assert_eq!(api.query_native_cd_audio_mode(), Some(2));
    match api.sound.audio_requests.back() {
        Some(AudioCommand::Play { channel, asset, volume, restart, .. }) => {
            assert_eq!(*channel, NATIVE_CD_AUDIO_CHANNEL);
            assert_eq!(asset.file, "track01.ogg");
            assert_eq!(*volume, 128);
            assert!(*restart);
        }
        other => panic!("unexpected request {other:?}"),
    }
    assert!(api.stop_native_cd_audio());
    assert_eq!(api.query_native_cd_audio_mode(), Some(3));
    assert!(api.close_native_cd_audio());
    assert_eq!(api.query_native_cd_audio_mode(), None);
    assert!(!api.close_native_cd_audio());
    assert!(!api.stop_native_cd_audio());
}

#[test]
fn loaded_bgm_waits_for_one_explicit_start() {
    let mut api = RuntimeTraceApi::new(800, 600);
    assert!(!api.load_native_bgm_slot(2, None, true));
    assert!(api.load_native_bgm_slot(2, Some(asset("bgm.arc", "bgm01")), true));
    assert_eq!(api.bgm_status(2), 1);
    assert!(matches!(api.sound.audio_requests.back(), Some(AudioCommand::Stop { channel: 2 })));
    api.control_native_bgm(2, 1);
    assert_eq!(api.bgm_status(2), 0);
    match api.sound.audio_requests.back() {
        Some(AudioCommand::Play { channel, looped, restart, volume, .. }) => {
            assert_eq!(*channel, 2);
            assert!(*looped);
            assert!(*restart);
            assert_eq!(*volume, 128);
        }
        other => panic!("unexpected request {other:?}"),
    }
    assert_eq!(
        api.sound.clock_requests.back(),
        Some(&ClockRequest::StartBgm { channel: 2, playback_rate_fixed: 0x10000 })
    );
    assert!(!api.play_loaded_native_bgm(2));
    api.control_native_bgm(2, 0);
    assert_eq!(api.bgm_status(2), 1);
    assert!(matches!(api.sound.audio_requests.back(), Some(AudioCommand::Pause { channel: 2, paused: true })));
    api.control_native_bgm(2, 1);
    assert!(matches!(api.sound.audio_requests.back(), Some(AudioCommand::Pause { channel: 2, paused: false })));
    let before = api.sound.audio_requests.len();
    api.control_native_bgm(9, 1);
    assert_eq!(api.sound.audio_requests.len(), before);
    assert_eq!(api.bgm_status(99), 1);
}

#[test]
fn gain_banks_clamp_and_stay_separate() {
    let mut api = RuntimeTraceApi::new(800, 600);
    api.set_native_bgm_gain_bank(3, 200, true);
    assert_eq!(api.sound.bgm_primary_volumes[3], 128);
    api.set_native_bgm_gain_bank(3, 64, false);
    assert_eq!(api.sound.bgm_primary_volumes[3], 128);
    assert_eq!(api.sound.bgm_secondary_volumes[3], 64);
    assert!(matches!(
        api.sound.audio_requests.back(),
        Some(AudioCommand::SetVolume { channel: 3, volume: 104, duration: 0 })
    ));
    api.set_native_bgm_fade_volume(3, -5);
    assert_eq!(api.native_bgm_effective_volume(3), 0);
    api.apply_native_bgm_volume(3, 500);
    assert!(matches!(
        api.sound.audio_requests.back(),
        Some(AudioCommand::SetVolume { channel: 3, volume: 0, duration: 500 })
    ));
    let before = api.sound.audio_requests.len();
    api.set_native_bgm_gain_bank(16, 10, true);
    assert_eq!(api.sound.audio_requests.len(), before);
    assert_eq!(api.native_bgm_effective_volume(-1), 0);
    api.set_native_sound_gain_bank(40, 64, true);
    assert_eq!(api.native_sound_volume_factors(40), [64, 128, 128, 128]);
    assert!(matches!(
        api.sound.audio_requests.back(),
        Some(AudioCommand::SetVolume { channel: 0x128, volume: 104, duration: 0 })
    ));
    assert_eq!(api.native_sound_volume_factors(64), [0, 0, 0, 0]);
    assert_eq!(api.native_sound_effective_volume(64), 0);
}

#[test]
fn sound_slots_play_with_their_channel_gain_and_rate() {
    let mut api = RuntimeTraceApi::new(800, 600);
    assert!(api.load_native_sound_slot(5, Some(asset("se.arc", "se01")), 0x10000, 0x20000, 7));
    assert!(matches!(api.sound.audio_requests.back(), Some(AudioCommand::Stop { channel: 0x105 })));
    assert_eq!(api.sound.clock_requests.back(), Some(&ClockRequest::StopSound { channel: 5 }));
    api.play_native_sound_slot(5, 64, 32);
    match api.sound.audio_requests.back() {
        Some(AudioCommand::Play { channel, volume, panning, playback_rate_fixed, restart, .. }) => {
            assert_eq!(*channel, 0x105);
            assert_eq!(*volume, 104);
            assert_eq!(*panning, Some(32));
            assert_eq!(*playback_rate_fixed, 0x20000);
            assert!(*restart);
        }
        other => panic!("unexpected request {other:?}"),
    }
    assert_eq!(
        api.sound.clock_requests.back(),
        Some(&ClockRequest::StartSound { channel: 5, playback_rate_fixed: 0x20000 })
    );
    api.start_native_sound_slot(5, 128, 64);
    match api.sound.audio_requests.back() {
        Some(AudioCommand::Play { restart, volume, .. }) => {
            assert!(*restart);
            assert_eq!(*volume, 128);
        }
        other => panic!("unexpected request {other:?}"),
    }
    let clocks = api.sound.clock_requests.len();
    api.start_native_sound_slot(5, 128, 64);
    match api.sound.audio_requests.back() {
        Some(AudioCommand::Play { restart, .. }) => assert!(!*restart),
        other => panic!("unexpected request {other:?}"),
    }
    assert_eq!(api.sound.clock_requests.len(), clocks);
    api.free_native_sound_slot(5);
    assert!(api.sound.sound_slots.get(&5).is_none());
    assert_eq!(api.play_native_sound_file(None), 0);
    assert_eq!(api.play_native_sound_file(Some(asset("se.arc", "legacy"))), 1);
    assert!(matches!(api.sound.audio_requests.back(), Some(AudioCommand::Play { channel: 0x13F, .. })));
}

#[test]
fn bgm_pairs_and_panning() {
    let mut api = RuntimeTraceApi::new(800, 600);
    assert_eq!(native_bgm_loop_file("Intro", ""), None);
    assert_eq!(native_bgm_loop_file("Intro", "INTRO"), None);
    assert_eq!(native_bgm_loop_file("Intro", "loop"), Some("loop".to_string()));
    assert!(!api.load_native_bgm_pair(1, Some(asset("a", "intro")), None, true, None));
    assert!(api.load_native_bgm_pair(1, Some(asset("a", "intro")), Some(Some(asset("a", "loop"))), true, Some(80)));
    assert_eq!(api.sound.bgm_slots[&1].loop_asset.as_ref().unwrap().file, "loop");
    api.set_native_bgm_panning(1, 10);
    assert_eq!(api.sound.bgm_slots[&1].panning, Some(10));
    assert!(matches!(api.sound.audio_requests.back(), Some(AudioCommand::SetPanning { channel: 1, panning: Some(10) })));
}

#[test]
fn landscape_handles_use_tag_and_four_slots() {
    let mut api = RuntimeTraceApi::new(800, 600);
    let first = api.graph91_create_landscape(0, 0, 0, 0, 0, 0);
    assert_eq!(first as u32, 0xA100_0000);
    for slot in 1..4u32 {
        assert_eq!(api.graph91_create_landscape(64, 16, 16, 0, 0, 0) as u32, 0xA100_0000 | slot);
    }
    assert_eq!(api.graph91_create_landscape(64, 16, 16, 0, 0, 0), 0);
    assert!(api.graph91_release_landscape(first));
    assert!(!api.graph91_release_landscape(first));
    assert!(!api.graph91_release_landscape(0x1234));
    assert_eq!(api.graph91_create_landscape(64, 16, 16, 0, 0, 0), first);
    let effector = api.graph91_create_effector();
    assert_eq!(effector as u32, 0x9100_0000);
    assert!(api.graph91_release_effector(effector));
    assert!(!api.graph91_release_effector(effector));
}

#[test]
fn landscape_defaults_and_depth_values() {
    let l = Graph91LandscapeState::new(3, 0, 0, 0, 10, 1);
    assert_eq!(l.cell_width, 64);
    assert_eq!(l.row_step, 16);
    assert_eq!(l.column_step, 16);
    assert_eq!(l.baseline, 560);
    assert_eq!(l.alpha, 256);
    assert_eq!(l.source_bitmap, -1);
    assert_eq!(l.rebuild_derived_value(2, 3), 583);
    let negative = Graph91LandscapeState::new(64, 16, 16, -100, 10, 1);
    assert_eq!(negative.rebuild_derived_value(0, 0), 0);
    let huge = Graph91LandscapeState::new(64, 16, 16, i32::MAX, i32::MAX, i32::MAX);
    assert_eq!(huge.rebuild_derived_value(5, 5), 0xFFFF);
}

#[test]
fn landscape_map_cells_guides_and_hit_test() {
    let mut api = RuntimeTraceApi::new(800, 600);
    let h = api.graph91_create_landscape(64, 16, 16, 0, 10, 1);
    let part_words = [0, 0, 2, 2, 0];
    let column_words = [0; 34];
    assert!(!api.graph91_configure_landscape_parts(h, 7, 1, &part_words, 0, 1, &column_words));
    api.graph91_store_bitmap(7, solid(2, 2, [1, 2, 3, 4]), 2);
    assert!(!api.graph91_configure_landscape_parts(h, 7, 2, &part_words, 0, 1, &column_words));
    assert!(api.graph91_configure_landscape_parts(h, 7, 1, &part_words, 4, 1, &column_words));
    assert!(!api.graph91_configure_landscape_map(h, 2, 2, &[0, 1, 0, 0]));
    assert!(!api.graph91_configure_landscape_map(h, 0, 2, &[]));
    assert!(api.graph91_configure_landscape_map(h, 2, 2, &[0, -1, 0, 0]));
    assert_eq!(api.graph91_landscape_cell_value(h, 1, 1), Some(571));
    assert_eq!(api.graph91_landscape_cell_value(h, 2, 0), None);
    assert_eq!(api.graph91_landscape_hit_test(h, Some((10, 5))), Some([0, 0]));
    assert_eq!(api.graph91_landscape_hit_test(h, Some((70, 5))), None);
    assert!(api.graph91_set_landscape_cell_column(h, 0, 1, 0));
    assert!(!api.graph91_set_landscape_cell_column(h, 0, 1, 1));
    assert_eq!(api.graph91_landscape_hit_test(h, Some((70, 5))), Some([0, 1]));
    assert_eq!(api.graph91_landscape_hit_test(h, Some((10, 20))), None);
    assert_eq!(api.graph91_landscape_hit_test(h, Some((40, 20))), Some([1, 0]));
    assert_eq!(api.graph91_landscape_hit_test(h, None), None);
    assert!(api.graph91_configure_landscape_guides(h, 7, 1, &[1, 1, 1, 1, 0]));
    assert!(api.graph91_set_landscape_cell_guides(h, &[0, 0, 1, 1], 2, 0, 9));
    let l = &api.graph91.landscapes[&h];
    assert_eq!(l.cells[0].guides[2], Some((0, 9)));
    assert_eq!(l.cells[3].guides[2], Some((0, 9)));
    assert!(!api.graph91_set_landscape_cell_guides(h, &[1, 0, 5, 5], 1, -1, 0));
    assert!(!api.graph91_set_landscape_cell_guides(h, &[0, 0], 1, 3, 0));
    assert!(!api.graph91_set_landscape_cell_guides(h, &[0], 1, 0, 0));
}

#[test]
fn effector_configuration_checks_map_formats() {
    let mut api = RuntimeTraceApi::new(800, 600);
    let e = api.graph91_create_effector();
    api.graph91_store_bitmap(20, solid(1, 1, [0, 0, 0, 0]), 4);
    api.graph91_store_bitmap(21, solid(1, 1, [0, 0, 0, 0]), 6);
    assert!(api.graph91_bitmap_matches(-1, 6));
    assert!(api.graph91_bitmap_matches(20, 4));
    assert!(!api.graph91_bitmap_matches(20, 6));
    assert!(!api.graph91_bitmap_matches(99, 2));
    api.graph91_configure_effector(e, 2, [20, -1], [1; 9], 5);
    assert_eq!(api.graph91.effectors[&e].mode, -1);
    api.graph91_configure_effector(e, 2, [21, 20], [1; 9], 5);
    assert_eq!(api.graph91.effectors[&e].mode, 2);
    assert_eq!(api.graph91.effectors[&e].priority, 5);
    api.graph91_configure_effector(e, 1, [20, -1], [2; 9], 0x1_0000);
    assert_eq!(api.graph91.effectors[&e].mode, 1);
    assert_eq!(api.graph91.effectors[&e].priority, 5);
}

#[test]
fn bitmap_pixel_operations() {
    let mut api = RuntimeTraceApi::new(800, 600);
    api.graph91_store_bitmap(1, solid(2, 1, [10, 20, 30, 40]), 3);
    assert!(api.invert_system92_alpha_bitmap(1));
    assert_eq!(api.graph91.bitmaps[&1].rgba, vec![215; 8]);
    assert!(!api.invert_system92_alpha_bitmap(2));

    api.graph91_store_bitmap(2, solid(2, 2, [0, 0, 0, 0]), 2);
    api.graph91_store_bitmap(3, solid(1, 1, [30, 60, 90, 255]), 2);
    api.graph91_apply_grayscale_mask(2, 3, 1, 1);
    assert_eq!(api.graph91.bitmaps[&2].rgba[15], 60);
    assert_eq!(api.graph91.bitmaps[&2].rgba[3], 0);

    api.graph91_store_bitmap(4, solid(1, 1, [100, 100, 100, 10]), 2);
    api.graph91_store_bitmap(5, solid(1, 1, [50, 200, 250, 20]), 2);
    api.graph91_process_bitmap(4, 5, 0, 0, 256);
    assert_eq!(api.graph91.bitmaps[&4].rgba, vec![50, 200, 250, 20]);
    api.graph91_process_bitmap(4, 5, 1, 256, 128);
    assert_eq!(api.graph91.bitmaps[&4].rgba, vec![75, 227, 252, 20]);
    api.graph91_process_bitmap(6, 5, 3, 0, 256);
    assert_eq!(api.graph91.bitmaps[&6].rgba, vec![9, 156, 245, 20]);

    api.graph91_store_bitmap(8, solid(1, 1, [100, 100, 100, 100]), 2);
    api.graph91_concentrate_bitmap(8, 5, 0x1_0000, 0x1_0000, 128);
    assert_eq!(api.graph91.bitmaps[&8].rgba, vec![125, 200, 225, 110]);

    api.graph91_store_bitmap(9, solid(2, 1, [0, 0, 0, 0]), 2);
    api.graph91_composite_rect(&[9, 1, 0, 5, 0, 0, 0, 1, 1, 256, 0], false);
    assert_eq!(api.graph91.bitmaps[&9].rgba, vec![0, 0, 0, 0, 50, 200, 250, 255]);
    api.graph91_composite_rect(&[10, 0, 0, 5, 0, 0, 0, 1, 1, 256, 0], true);
    assert_eq!(api.graph91.bitmaps[&10].rgba, vec![50, 200, 250, 20]);

    api.graph91_store_bitmap(11, Bitmap { width: 2, height: 1, rgba: vec![1, 2, 3, 4, 5, 6, 7, 8] }, 2);
    assert_eq!(api.replace_native_bitmap_color(11, 0x0001_0203, 0xFF0A_0B0C, Some(4)), 0);
    assert_eq!(api.graph91.bitmaps[&11].rgba, vec![10, 11, 12, 4, 5, 6, 7, 8]);
    assert_eq!(api.replace_native_bitmap_color(12, 0, 0, Some(4)), 1);
    assert_eq!(api.replace_native_bitmap_color(11, 0, 0, Some(3)), 2);
}

#[test]
fn landscape_part_and_cell_image_copies() {
    let mut api = RuntimeTraceApi::new(800, 600);
    let h = api.graph91_create_landscape(64, 16, 16, 0, 0, 0);
    let mut rgba = Vec::new();
    for i in 0..4u8 {
        rgba.extend_from_slice(&[i, i, i, 255]);
    }
    api.graph91_store_bitmap(7, Bitmap { width: 2, height: 2, rgba }, 2);
    let part_words = [0, 0, 1, 1, 0, 1, 1, 1, 1, 0];
    let mut column_words = [0; 34];
    column_words[0] = 1;
    assert!(api.graph91_configure_landscape_parts(h, 7, 2, &part_words, 0, 1, &column_words));
    assert!(api.graph91_copy_landscape_part(h, 1, 0));
    assert_eq!(api.graph91.bitmaps[&7].rgba[12..16], [0, 0, 0, 255]);
    assert!(!api.graph91_copy_landscape_part(h, 2, 0));
    assert!(api.graph91_configure_landscape_map(h, 1, 1, &[0]));
    api.graph91_store_bitmap(8, solid(1, 1, [9, 9, 9, 9]), 2);
    assert!(api.graph91_copy_landscape_cell_image(8, h, 0, 0));
    assert_eq!(api.graph91.bitmaps[&8].rgba, vec![0, 0, 0, 255]);
    assert!(!api.graph91_copy_landscape_cell_image(8, h, 1, 0));
    assert_eq!(RuntimeTraceApi::graph91_multilayer_render_id(3), -0x2100_0000 + 3);
    assert!(RuntimeTraceApi::graph90_tag_matches(0xA100_0003u32 as i32, 0xA100_0000, 4));
    assert!(!RuntimeTraceApi::graph90_tag_matches(0xA100_0004u32 as i32, 0xA100_0000, 4));
}

#[test]
fn user_state_through_the_runtime() {
    let mut api = RuntimeTraceApi::new(640, 480);
    api.seed_native_crt_rng(1);
    assert_eq!(api.next_native_crt_rand(), 41);
    assert!(!api.has_active_native_screen_shake());
    assert_eq!(api.tick_native_user_state(16), None);
    api.native_user.cursor_object = Some((77, 2, -3));
    api.mouse_pos = Some((100, 50));
    assert_eq!(api.tick_native_user_state(16), Some((77, 102, 47)));
    assert!(api.native_user.screen_shake.configure(0, 32, 2, 1, 0, 8, false));
    api.tick_native_user_state(0);
    assert!(api.has_active_native_screen_shake());
    api.cancel_native_screen_shake();
    assert!(!api.has_active_native_screen_shake());
    assert_eq!(api.screen_shake_offset, (0, 0));
    assert!(!api.has_visible_user_modeless_dialog());
    let dialog = api.create_user_modeless_dialog([200, -5, 64, 0, 0, 3, 0, 1, 0]).unwrap();
    assert_eq!(api.poll_user_modeless_dialog(dialog), Ok(None));
    assert!(api.set_user_modeless_dialog_visible(dialog, true));
    assert!(api.has_visible_user_modeless_dialog());
    assert!(api.close_user_modeless_dialog(dialog));
    assert_eq!(api.poll_user_modeless_dialog(dialog), Err(()));
    assert!(!api.set_user_modeless_dialog_visible(dialog, true));
    assert!(!api.handle_native_edit_key(KeyCode::Tab));
    assert!(!api.append_native_edit_text("x"));
    assert_eq!(runtime_frame_size(&api), (640, 480));
    api.screen_width = 0;
    api.screen_height = -1;
    assert_eq!(runtime_frame_size(&api), (1280, 720));
}

#[test]
fn edit_box_keys_and_text() {
    let mut state = NativeUserState::new();
    state.edit.active = true;
    state.edit.visible = true;
    state.edit.focused = true;
    state.edit.printable_input_enabled = true;
    state.edit.max_chars = 3;
    assert!(state.append_edit_text("ab\ncd"));
    assert_eq!(state.text, "abc");
    assert!(state.handle_edit_key(KeyCode::Backspace));
    assert_eq!(state.text, "ab");
    assert!(!state.handle_edit_key(KeyCode::Other));
    state.edit.hide_on_enter = true;
    assert!(state.handle_edit_key(KeyCode::Enter));
    assert!(!state.edit.focused);
    assert!(!state.edit.visible);
    assert!(!state.handle_edit_key(KeyCode::Backspace));
}

#[test]
fn text_styles_pick_the_first_covering_span() {
    let styles = [
        RuntimeTextStyleSpan { start_char: 0, end_char: 2, packed_rgb: Some(1) },
        RuntimeTextStyleSpan { start_char: 1, end_char: 5, packed_rgb: Some(2) },
    ];
    assert_eq!(runtime_text_style_at(&styles, 1).unwrap().packed_rgb, Some(1));
    assert_eq!(runtime_text_style_at(&styles, 4).unwrap().packed_rgb, Some(2));
    assert!(runtime_text_style_at(&styles, 5).is_none());
}

#[test]
fn shake_random_average_stays_within_the_maximum() {
    let mut seed = 1_u32;
    let value = target_shake_random_average(&mut seed, 100);
    assert!((0..=100).contains(&value));
    assert_ne!(seed, 1);
}

#[test]
fn sprite_classes_and_layers() {
    assert_eq!(classify_scenario_sprite("warn01"), ScenarioSpriteClass::Modal);
    assert_eq!(classify_scenario_sprite("BG_BLACK"), ScenarioSpriteClass::FadePlate);
    assert_eq!(classify_scenario_sprite("bg01"), ScenarioSpriteClass::Background);
    assert_eq!(classify_scenario_sprite("ev_a"), ScenarioSpriteClass::Event);
    assert_eq!(classify_scenario_sprite("ef_soft3"), ScenarioSpriteClass::Effect);
    assert_eq!(classify_scenario_sprite("brandlogo"), ScenarioSpriteClass::Logo);
    assert_eq!(classify_scenario_sprite("title_logo"), ScenarioSpriteClass::Logo);
    assert_eq!(classify_scenario_sprite("msgwnd"), ScenarioSpriteClass::Ui);
    assert_eq!(classify_scenario_sprite("ll_koh"), ScenarioSpriteClass::Character);
    assert_eq!(classify_scenario_sprite("h2"), ScenarioSpriteClass::Character);
    assert_eq!(classify_scenario_sprite("zz"), ScenarioSpriteClass::Other);
    assert_eq!(background_layer_id_for_slot(3), -60_013);
    assert_eq!(scenario_layer_ids_for_slot(2), [-60_012, -60_402, -60_702]);
    assert!(is_background_layer_id(-60_010));
    assert!(is_background_layer_id(-60_109));
    assert!(!is_background_layer_id(-60_110));
    assert!(is_viewport_sprite_class(ScenarioSpriteClass::Event));
    assert!(!is_viewport_sprite_class(ScenarioSpriteClass::Character));
    assert_eq!(sprite_fade_frames(ScenarioSpriteClass::Ui, 0), 1);
    assert_eq!(sprite_fade_frames(ScenarioSpriteClass::Background, 0), 1);
    assert_eq!(sprite_fade_frames(ScenarioSpriteClass::Background, 12), 12);
    let soft = place_scenario_sprite("ef_soft2", 5);
    assert_eq!(soft.layer_id, -60_200);
    assert_eq!(soft.z, 96);
    let other = place_scenario_sprite("zz", 100);
    assert_eq!(other.layer_id, -60_704);
    assert_eq!(other.z, 69);
    let modal = place_scenario_sprite("warn", 0);
    assert!(modal.blocks_input);
    assert_eq!(modal.layer_id, -50_000);
}

#[test]
fn scenario_text_helpers() {
    assert_eq!(last_two(&[1, 2, 3]), Some((2, 3)));
    assert_eq!(last_two(&[1]), None);
    assert_eq!(character_name(3), Some("hih".to_string()));
    assert_eq!(character_name(2), None);
    assert_eq!(size_prefix(1), "L");
    assert_eq!(size_prefix(9), "LL");
    assert_eq!(character_body_layer_for_pose("c"), Some("ax14".to_string()));
    assert!(looks_like_resource_name("bg01"));
    assert!(!looks_like_resource_name("a.txt"));
    assert!(looks_like_script_name("_GM"));
    assert!(!looks_like_script_name("_x"));
    assert!(is_message_text("「こんにちは」"));
    assert!(!is_message_text("se_01"));
    assert!(is_message_marker("空"));
}

#[test]
fn sprite_alias_candidates() {
    assert_eq!(split_body_expression("2a01"), Some((2, "a01".to_string())));
    assert_eq!(split_body_expression("x1"), None);
    assert_eq!(split_body_expression("2"), None);
    let aliases = scenario_image_aliases("EF_SOFT4");
    assert_eq!(aliases, vec!["ef_soft3".to_string(), "ef_soft2".to_string(), "ef_soft".to_string()]);
    let chars = character_sprite_aliases("ll_a_d_1a01");
    assert_eq!(chars[0], "ll_a_d_1a03");
    assert!(!chars.contains(&"ll_a_d_1a01".to_string()));
    assert!(chars.contains(&"ll_a_d_3base".to_string()) || chars.contains(&"ll_a_d_33base".to_string()));
    assert!(character_sprite_aliases("nodelimiter").is_empty());
}

#[test]
fn command_lines_split_like_the_crt() {
    assert_eq!(split_native_command_line("prog \"a b\" c"), vec!["prog", "a b", "c"]);
    assert_eq!(split_native_command_line("  "), Vec::<String>::new());
}

#[test]
fn platform_store_text_and_removal() {
    let (mut store, ignored) = PortablePlatformStore::from_text("a/B=1\nbroken\n\nc = 2\n");
    assert_eq!(store.get("A\\b"), Some("1"));
    assert!(ignored.contains(&2));
    assert!(store.remove("A/B"));
    assert_eq!(store.get("a/b"), None);
    assert!(!store.remove("a/b"));
    assert!(cursor_suppressed(2));
    assert!(!cursor_suppressed(1));
}

#[test]
fn modeless_controls_update_the_topmost_visible_dialog() {
    let mut state = NativeUserState::new();
    assert!(!state.apply_modeless_control(ModelessControl::Close));
    let first = state.create_modeless_dialog([64, 0, 128, 32, 96, 0, 1, 1, 0]).expect("modeless slot");
    let second = state.create_modeless_dialog([0; 9]).expect("modeless slot");
    assert!(state.set_modeless_dialog_visible(first, true));
    assert!(state.apply_modeless_control(ModelessControl::Slider { index: 0, value: 128 }));
    assert_eq!(state.poll_modeless_dialog(first), Ok(Some([0, 128])));
    assert!(state.apply_modeless_control(ModelessControl::Toggle { index: 5, left: false }));
    assert_eq!(state.poll_modeless_dialog(first), Ok(Some([5, 1])));
    assert!(state.apply_modeless_control(ModelessControl::Toggle { index: 8, left: true }));
    assert_eq!(state.poll_modeless_dialog(first), Ok(Some([8, 1])));
    assert!(state.set_modeless_dialog_visible(second, true));
    assert!(state.apply_modeless_control(ModelessControl::Slider { index: 1, value: 300 }));
    assert_eq!(state.poll_modeless_dialog(second), Ok(Some([1, 128])));
    assert_eq!(state.poll_modeless_dialog(first), Ok(None));
    assert!(state.apply_modeless_control(ModelessControl::Close));
    assert_eq!(state.poll_modeless_dialog(second), Ok(Some([-1, 0])));
    assert!(state.apply_modeless_control(ModelessControl::Close));
    assert_eq!(state.poll_modeless_dialog(first), Ok(Some([-1, 0])));
    assert!(!state.has_visible_modeless_dialog());
}

#[test]
fn dialog_history_keeps_the_most_recent_requests() {
    let mut state = NativeUserState::new();
    state.next_dialog_result = Some(7);
    assert_eq!(state.record_dialog(0x80, vec!["first".to_string()]), 7);
    assert_eq!(state.record_dialog(0x81, Vec::new()), 0);
    for i in 0..40u16 {
        state.record_dialog(0x100 + i, Vec::new());
    }
    assert_eq!(state.dialog_history.len(), 32);
    assert_eq!(state.dialog_history.front().map(|r| r.selector), Some(0x100 + 8));
    assert_eq!(state.dialog_history.back().map(|r| r.selector), Some(0x100 + 39));
}

#[test]
fn memory_sound_blocks_register_under_their_channel_name() {
    let mut api = RuntimeTraceApi::new(640, 480);
    assert!(api.register_native_sound_memory(3, &[0u8; 64], 5, 0x10000, 0x10000));
    let slot = api.sound.sound_slots.get(&3).expect("slot");
    assert_eq!(slot.asset.archive, "<vm-memory>");
    assert_eq!(slot.asset.file, "SoundA0_28_3");
    assert_eq!(slot.native_start_parameter, 5);
    assert!(!api.register_native_sound_memory(64, &[0u8; 64], 0, 0x10000, 0x10000));
    assert!(!api.register_native_sound_memory(4, &[0u8; 63], 0, 0x10000, 0x10000));
    assert!(!api.sound.sound_slots.contains_key(&4));
}

fn pixel(r: u8, g: u8, b: u8, a: u8) -> Bitmap {
    Bitmap { width: 1, height: 1, rgba: vec![r, g, b, a] }
}

#[test]
fn framebuffer_hash_covers_geometry_and_pixels() {
    let black = pixel(0, 0, 0, 255);
    let mut white = pixel(0, 0, 0, 255);
    white.rgba[0] = 255;
    let wider = Bitmap { width: 2, height: 1, rgba: vec![0, 0, 0, 255, 0, 0, 0, 255] };

    assert_eq!(stable_framebuffer_hash(&black), stable_framebuffer_hash(&black));
    assert_ne!(stable_framebuffer_hash(&black), stable_framebuffer_hash(&white));
    assert_ne!(stable_framebuffer_hash(&black), stable_framebuffer_hash(&wider));
}

#[test]
fn framebuffer_hash_is_fnv1a_over_size_and_pixels() {
    let empty = Bitmap { width: 0, height: 0, rgba: Vec::new() };
    assert_eq!(stable_framebuffer_hash(&empty), 0xa8c7_f832_281a_39c5);
    assert_eq!(stable_framebuffer_hash(&pixel(0, 0, 0, 255)), 0x7e1f_2542_cd31_c948);
}

#[test]
fn modeless_dialog_queues_slider_toggle_and_close_events() {
    // The host turns pointer positions into controls; here the controls are
    // given directly: the first slider at its right end, the first toggle,
    // and the close box.
    let mut state = NativeUserState::new();
    let handle = state.create_modeless_dialog([64, 0, 128, 32, 96, 0, 1, 1, 0]).expect("modeless slot");
    assert!(state.set_modeless_dialog_visible(handle, true));

    assert!(state.apply_modeless_control(ModelessControl::Slider { index: 0, value: 128 }));
    assert_eq!(state.poll_modeless_dialog(handle), Ok(Some([0, 128])));

    assert!(state.apply_modeless_control(ModelessControl::Toggle { index: 5, left: false }));
    assert_eq!(state.poll_modeless_dialog(handle), Ok(Some([5, 1])));

    assert!(state.apply_modeless_control(ModelessControl::Close));
    assert_eq!(state.poll_modeless_dialog(handle), Ok(Some([-1, 0])));
    assert!(!state.has_visible_modeless_dialog());
}

#[test]
fn cd_tracks_take_the_first_candidate_for_each_number() {
    let tracks = ethornell_app::native_sound::collect_cd_tracks(vec![
        (2, asset("cdda", "track02.ogg")),
        (1, asset("cdda", "track01.ogg")),
        (2, asset("cd", "track02.wav")),
    ]);
    assert_eq!(tracks.len(), 2);
    assert_eq!(tracks[&2].file, "track02.ogg");
    assert_eq!(tracks[&1].archive, "cdda");
    assert!(ethornell_app::native_sound::collect_cd_tracks(Vec::new()).is_empty());
}
