use ethornell_app::bcs::{BcsCommand, BcsName, BcsProgram, BcsSymbol, BcsValue};
use ethornell_app::scenario_action::{duration_frames, transform_hints, visual_hints, ScenarioAction, ScriptTransfer};
use ethornell_app::scenario_builder::ScenarioActionBuilder;
use ethornell_app::scenario_playback::ScenarioPlayback;
use ethornell_app::scenario_vm::TrigFunction;

fn command(addr: u32, opcode: u32, name: BcsName, args: Vec<BcsValue>) -> BcsCommand {
    BcsCommand { addr, opcode, name, args }
}

fn program(commands: Vec<BcsCommand>) -> BcsProgram {
    BcsProgram { commands, symbols: Vec::new() }
}

fn text(s: &str) -> BcsValue {
    BcsValue::Str(s.to_string())
}

fn say_program(prefix: Vec<BcsCommand>, line: &str, at: u32) -> BcsProgram {
    let mut commands = prefix;
    commands.push(command(at, 0x3, BcsName::PushString, vec![text(line)]));
    commands.push(command(at + 8, 0x3f, BcsName::Nargs, vec![BcsValue::Int(1)]));
    commands.push(command(at + 16, 0x140, BcsName::Say, Vec::new()));
    commands.push(command(at + 24, 0x1b, BcsName::Ret, Vec::new()));
    program(commands)
}

fn message_text(action: Option<ScenarioAction>) -> Option<String> {
    match action {
        Some(ScenarioAction::Message { text, .. }) => Some(text),
        _ => None,
    }
}

#[test]
fn follows_jump_instead_of_precollecting_skipped_actions() {
    let program = program(vec![
        command(0x1c, 0, BcsName::PushDword, vec![BcsValue::Addr(0x4c)]),
        command(0x24, 0x18, BcsName::Jmp, Vec::new()),
        command(0x2c, 0, BcsName::PushString, vec![text("「skipped」")]),
        command(0x34, 0x3f, BcsName::Nargs, vec![BcsValue::Int(1)]),
        command(0x3c, 0x140, BcsName::Say, Vec::new()),
        command(0x44, 0x1b, BcsName::Ret, Vec::new()),
        command(0x4c, 0, BcsName::PushString, vec![text("「visited」")]),
        command(0x54, 0x3f, BcsName::Nargs, vec![BcsValue::Int(1)]),
        command(0x5c, 0x140, BcsName::Say, Vec::new()),
        command(0x64, 0x1b, BcsName::Ret, Vec::new()),
    ]);
    let mut playback = ScenarioPlayback::from_program(program).expect("program");

    let (action, consumed) = playback.tick(false);

    assert!(!consumed);
    assert!(matches!(
        action,
        Some(ScenarioAction::Message { text, .. }) if text == "「visited」"
    ));
}

#[test]
fn conditional_jump_uses_its_encoded_target_not_the_operand_stack() {
    let program = program(vec![
        command(0x1c, 0, BcsName::PushDword, vec![BcsValue::Int(1)]),
        command(0x24, 0x19, BcsName::Jc, vec![BcsValue::Addr(0x54)]),
        command(0x2c, 0, BcsName::PushString, vec![text("「fallthrough」")]),
        command(0x34, 0x3f, BcsName::Nargs, vec![BcsValue::Int(1)]),
        command(0x3c, 0x140, BcsName::Say, Vec::new()),
        command(0x44, 0x1b, BcsName::Ret, Vec::new()),
        command(0x54, 0, BcsName::PushString, vec![text("「taken」")]),
        command(0x5c, 0x3f, BcsName::Nargs, vec![BcsValue::Int(1)]),
        command(0x64, 0x140, BcsName::Say, Vec::new()),
        command(0x6c, 0x1b, BcsName::Ret, Vec::new()),
    ]);
    let mut playback = ScenarioPlayback::from_program(program).expect("program");

    assert!(matches!(
        playback.tick(false).0,
        Some(ScenarioAction::Message { text, .. }) if text == "「taken」"
    ));
}

#[test]
fn external_script_return_restores_calling_program() {
    let parent = program(vec![
        command(0x1c, 0, BcsName::PushString, vec![text("child")]),
        command(0x24, 0, BcsName::PushDword, vec![BcsValue::Int(0)]),
        command(0x2c, 0x0f0, BcsName::ExecScript, Vec::new()),
        command(0x34, 0, BcsName::PushString, vec![text("「returned」")]),
        command(0x3c, 0x3f, BcsName::Nargs, vec![BcsValue::Int(1)]),
        command(0x44, 0x140, BcsName::Say, Vec::new()),
        command(0x4c, 0x1b, BcsName::Ret, Vec::new()),
    ]);
    let child = program(vec![command(0x1c, 0x1b, BcsName::Ret, Vec::new())]);
    let mut playback = ScenarioPlayback::from_program(parent).expect("parent");

    assert!(matches!(
        playback.tick(false).0,
        Some(ScenarioAction::LoadScript { file, transfer: ScriptTransfer::Call, .. }) if file == "child"
    ));
    assert!(playback.append_program(child).is_some());
    assert!(matches!(
        playback.tick(false).0,
        Some(ScenarioAction::Message { text, .. }) if text == "「returned」"
    ));
}

#[test]
fn legacy_external_script_return_restores_calling_program() {
    let parent = program(vec![
        command(0x1c, 0, BcsName::PushString, vec![text("MakerLogo")]),
        command(0x24, 0, BcsName::PushDword, vec![BcsValue::Int(0)]),
        command(0x2c, 0x0f3, BcsName::Other, Vec::new()),
        command(0x34, 0x1b, BcsName::Ret, Vec::new()),
    ]);
    let child = program(vec![command(0x1c, 0x1b, BcsName::Ret, Vec::new())]);
    let mut playback = ScenarioPlayback::from_program(parent).expect("parent");

    assert!(matches!(
        playback.tick(false).0,
        Some(ScenarioAction::LoadScript { file, transfer: ScriptTransfer::Call, .. })
            if file == "MakerLogo"
    ));
    assert!(playback.append_program(child).is_some());
    assert!(playback.tick(false).0.is_none());
    assert!(playback.is_completed());
}

#[test]
fn f6_resolves_a_local_label_before_call() {
    let mut program = program(vec![
        command(0x1c, 0x03, BcsName::PushString, vec![text("__entry")]),
        command(0x24, 0x0f6, BcsName::ResolveSymbol, Vec::new()),
        command(0x28, 0x01, BcsName::PushOffset, vec![BcsValue::Addr(0)]),
        command(0x30, 0x1a, BcsName::Call, Vec::new()),
        command(0x34, 0x1b, BcsName::Ret, Vec::new()),
        command(0x50, 0x03, BcsName::PushString, vec![text("「resolved」")]),
        command(0x58, 0x3f, BcsName::Nargs, vec![BcsValue::Int(1)]),
        command(0x60, 0x140, BcsName::Say, Vec::new()),
        command(0x68, 0x1b, BcsName::Ret, Vec::new()),
    ]);
    program.symbols.push(BcsSymbol { name: "__entry".into(), addr: 0x50 });
    let mut playback = ScenarioPlayback::from_program(program).expect("program");

    assert!(matches!(
        playback.tick(false).0,
        Some(ScenarioAction::Message { text, .. }) if text == "「resolved」"
    ));
}

#[test]
fn executes_frame_memory_reads_writes_and_a_conditional_branch() {
    let program = program(vec![
        command(0x1c, 0x10, BcsName::GetStackPointer, Vec::new()),
        command(0x20, 0, BcsName::PushDword, vec![BcsValue::Int(8)]),
        command(0x28, 0x20, BcsName::Add, Vec::new()),
        command(0x2c, 0x11, BcsName::SetStackPointer, Vec::new()),
        command(0x30, 0, BcsName::PushDword, vec![BcsValue::Int(123)]),
        command(0x38, 0x2, BcsName::PushBaseOffset, vec![BcsValue::BaseOffset(4)]),
        command(0x40, 0x0a, BcsName::WriteMem, vec![BcsValue::Int(2)]),
        command(0x44, 0x2, BcsName::PushBaseOffset, vec![BcsValue::BaseOffset(4)]),
        command(0x4c, 0x08, BcsName::ReadMem, vec![BcsValue::Int(2)]),
        command(0x54, 0, BcsName::PushDword, vec![BcsValue::Int(123)]),
        command(0x5c, 0x30, BcsName::Eq, Vec::new()),
        command(0x60, 0x19, BcsName::Jc, vec![BcsValue::Addr(0x90)]),
        command(0x68, 0x3, BcsName::PushString, vec![text("「wrong branch」")]),
        command(0x70, 0x3f, BcsName::Nargs, vec![BcsValue::Int(1)]),
        command(0x78, 0x140, BcsName::Say, Vec::new()),
        command(0x80, 0x1b, BcsName::Ret, Vec::new()),
        command(0x90, 0x3, BcsName::PushString, vec![text("「frame memory works」")]),
        command(0x98, 0x3f, BcsName::Nargs, vec![BcsValue::Int(1)]),
        command(0xa0, 0x140, BcsName::Say, Vec::new()),
        command(0xa8, 0x1b, BcsName::Ret, Vec::new()),
    ]);
    let mut playback = ScenarioPlayback::from_program(program).expect("program");

    assert!(matches!(
        playback.tick(false).0,
        Some(ScenarioAction::Message { text, .. }) if text == "「frame memory works」"
    ));
}

#[test]
fn global_set_and_get_follow_the_compiler_stack_contract() {
    let program = program(vec![
        command(0x1c, 0, BcsName::PushDword, vec![BcsValue::Int(9)]),
        command(0x24, 0, BcsName::PushDword, vec![BcsValue::Int(9)]),
        command(0x2c, 0x3f, BcsName::Nargs, vec![BcsValue::Int(1)]),
        command(0x34, 0xe1, BcsName::GlobalGet, Vec::new()),
        command(0x3c, 0, BcsName::PushDword, vec![BcsValue::Int(1)]),
        command(0x44, 0x20, BcsName::Add, Vec::new()),
        command(0x4c, 0x3f, BcsName::Nargs, vec![BcsValue::Int(2)]),
        command(0x54, 0xe0, BcsName::GlobalSet, Vec::new()),
        command(0x5c, 0, BcsName::PushDword, vec![BcsValue::Int(9)]),
        command(0x64, 0x3f, BcsName::Nargs, vec![BcsValue::Int(1)]),
        command(0x6c, 0xe1, BcsName::GlobalGet, Vec::new()),
        command(0x74, 0, BcsName::PushDword, vec![BcsValue::Int(1)]),
        command(0x7c, 0x30, BcsName::Eq, Vec::new()),
        command(0x84, 0x19, BcsName::Jc, vec![BcsValue::Addr(0xa4)]),
        command(0x8c, 0x1b, BcsName::Ret, Vec::new()),
        command(0xa4, 0x3, BcsName::PushString, vec![text("「global state works」")]),
        command(0xac, 0x3f, BcsName::Nargs, vec![BcsValue::Int(1)]),
        command(0xb4, 0x140, BcsName::Say, Vec::new()),
        command(0xbc, 0x1b, BcsName::Ret, Vec::new()),
    ]);
    let mut playback = ScenarioPlayback::from_program(program).expect("program");

    assert!(matches!(
        playback.tick(false).0,
        Some(ScenarioAction::Message { text, .. }) if text == "「global state works」"
    ));
    assert!(matches!(playback.global(9), Some(BcsValue::Int(1))));
    assert_eq!(playback.operand_stack_len(), 0);
    assert!(playback.pending_arg_count().is_none());
}

#[test]
fn scheduler_yield_resumes_on_the_next_frame() {
    let program = program(vec![
        command(0x1c, 0, BcsName::PushDword, vec![BcsValue::Int(1)]),
        command(0x24, 0x3f, BcsName::Nargs, vec![BcsValue::Int(1)]),
        command(0x2c, 0x120, BcsName::Cmd0x120, Vec::new()),
        command(0x34, 0x3, BcsName::PushString, vec![text("「after yield」")]),
        command(0x3c, 0x3f, BcsName::Nargs, vec![BcsValue::Int(1)]),
        command(0x44, 0x140, BcsName::Say, Vec::new()),
        command(0x4c, 0x1b, BcsName::Ret, Vec::new()),
    ]);
    let mut playback = ScenarioPlayback::from_program(program).expect("program");

    assert!(playback.tick(false).0.is_none());
    assert!(matches!(
        playback.tick(false).0,
        Some(ScenarioAction::Message { text, .. }) if text == "「after yield」"
    ));
}

#[test]
fn empty_program_has_no_player() {
    assert!(ScenarioPlayback::from_program(program(Vec::new())).is_none());
}

#[test]
fn message_waits_for_input_and_input_resumes() {
    let prefix = vec![command(0x10, 0x3, BcsName::PushString, vec![text("「first」")]),
        command(0x14, 0x3f, BcsName::Nargs, vec![BcsValue::Int(1)]),
        command(0x18, 0x140, BcsName::Say, Vec::new())];
    let mut playback = ScenarioPlayback::from_program(say_program(prefix, "「second」", 0x20)).expect("program");

    assert_eq!(message_text(playback.tick(false).0).as_deref(), Some("「first」"));
    let (action, consumed) = playback.tick(false);
    assert!(action.is_none());
    assert!(!consumed);
    assert!(playback.is_waiting_for_input());
    let (action, consumed) = playback.tick(false);
    assert!(action.is_none() && !consumed);
    let (action, consumed) = playback.tick(true);
    assert!(consumed);
    assert_eq!(message_text(action).as_deref(), Some("「second」"));
}

#[test]
fn speaker_label_names_the_next_line() {
    let prefix = vec![
        command(0x10, 0x3, BcsName::PushString, vec![text("太郎")]),
        command(0x14, 0x3, BcsName::PushString, vec![text("「やあ」")]),
        command(0x18, 0x3f, BcsName::Nargs, vec![BcsValue::Int(2)]),
        command(0x1c, 0x140, BcsName::Say, Vec::new()),
    ];
    let mut playback = ScenarioPlayback::from_program(say_program(prefix, "「end」", 0x20)).expect("program");
    match playback.tick(false).0 {
        Some(ScenarioAction::Message { speaker, text }) => {
            assert_eq!(speaker.as_deref(), Some("太郎"));
            assert_eq!(text, "「やあ」");
        }
        other => panic!("unexpected {:?}", other),
    }
}

#[test]
fn arithmetic_follows_wrapping_and_zero_divisor_rules() {
    // (7 / 0) == 0, (-7 / 2) == -3, (-7 % 2) == -1, i32::MIN / -1 wraps.
    let checks: Vec<(BcsName, i32, i32, i32)> = vec![
        (BcsName::Div, 7, 0, 0),
        (BcsName::Div, -7, 2, -3),
        (BcsName::Mod, -7, 2, -1),
        (BcsName::Mod, 7, 0, 0),
        (BcsName::Div, i32::MIN, -1, i32::MIN),
        (BcsName::Mul, i32::MAX, 2, -2),
        (BcsName::Shl, 1, 33, 2),
        (BcsName::Shr, -1, 28, 15),
        (BcsName::Sar, -16, 2, -4),
    ];
    for (op, left, right, expected) in checks {
        let program = program(vec![
            command(0x10, 0, BcsName::PushDword, vec![BcsValue::Int(left)]),
            command(0x18, 0, BcsName::PushDword, vec![BcsValue::Int(right)]),
            command(0x20, 0x20, op, Vec::new()),
            command(0x24, 0x3f, BcsName::Nargs, vec![BcsValue::Int(2)]),
            command(0x2c, 0xe0, BcsName::GlobalSet, Vec::new()),
        ]);
        // The result is stored in global `result` after pushing the index below it.
        let mut commands = vec![command(0x08, 0, BcsName::PushDword, vec![BcsValue::Int(5)])];
        commands.extend(program.commands);
        let mut playback = ScenarioPlayback::from_program(BcsProgram { commands, symbols: Vec::new() })
            .expect("program");
        assert!(playback.tick(false).0.is_none());
        assert!(playback.is_completed());
        assert!(
            matches!(playback.global(5), Some(BcsValue::Int(v)) if v == expected),
            "{:?} {} {}",
            op,
            left,
            right
        );
    }
}

#[test]
fn trigonometry_waits_for_the_host_value() {
    let program = program(vec![
        command(0x08, 0, BcsName::PushDword, vec![BcsValue::Int(3)]),
        command(0x10, 0, BcsName::PushDword, vec![BcsValue::Int(0)]),
        command(0x18, 0x40, BcsName::Cos, Vec::new()),
        command(0x1c, 0x3f, BcsName::Nargs, vec![BcsValue::Int(2)]),
        command(0x24, 0xe0, BcsName::GlobalSet, Vec::new()),
    ]);
    let mut playback = ScenarioPlayback::from_program(program).expect("program");
    assert!(playback.tick(false).0.is_none());
    assert_eq!(playback.trig_request(), Some((TrigFunction::Cos, 0)));
    assert!(playback.tick(false).0.is_none());
    assert_eq!(playback.trig_request(), Some((TrigFunction::Cos, 0)));
    playback.supply_trig(65536);
    assert!(playback.trig_request().is_none());
    assert!(playback.tick(false).0.is_none());
    assert!(matches!(playback.global(3), Some(BcsValue::Int(65536))));
}

#[test]
fn missing_jump_target_finishes_the_script() {
    let program = program(vec![
        command(0x10, 0, BcsName::PushDword, vec![BcsValue::Addr(0x999)]),
        command(0x18, 0x18, BcsName::Jmp, Vec::new()),
        command(0x20, 0x3, BcsName::PushString, vec![text("「never」")]),
    ]);
    let mut playback = ScenarioPlayback::from_program(program).expect("program");
    assert!(playback.tick(false).0.is_none());
    assert!(playback.is_completed());
}

#[test]
fn append_without_a_waiting_transfer_is_refused() {
    let mut playback =
        ScenarioPlayback::from_program(program(vec![command(0x10, 0x1b, BcsName::Ret, Vec::new())]))
            .expect("program");
    let child = program(vec![command(0x1c, 0x1b, BcsName::Ret, Vec::new())]);
    assert!(playback.append_program(child).is_none());
}

#[test]
fn durations_round_up_to_sixteen_millisecond_frames() {
    assert_eq!(duration_frames(&[BcsValue::Int(17)]), Some(2));
    assert_eq!(duration_frames(&[BcsValue::Int(16)]), Some(1));
    assert_eq!(duration_frames(&[BcsValue::Int(15)]), None);
    assert_eq!(duration_frames(&[BcsValue::Int(30001)]), None);
    assert_eq!(duration_frames(&[BcsValue::Int(300), BcsValue::Int(5)]), Some(19));
}

#[test]
fn visual_hints_read_slot_position_and_depth_around_the_resource() {
    let args = vec![BcsValue::Int(5), text("bg01"), BcsValue::Int(120), BcsValue::Int(300)];
    let hints = visual_hints(&args);
    assert_eq!(hints.slot, Some(5));
    assert_eq!(hints.x, Some(120));
    assert_eq!(hints.z, Some(300));
    assert!(hints.opacity.is_none() && hints.body_layer.is_none());

    let no_file = vec![BcsValue::Int(200), BcsValue::Int(7), BcsValue::Int(150)];
    let hints = visual_hints(&no_file);
    assert_eq!(hints.slot, Some(7));
    assert_eq!(hints.x, None);
    assert_eq!(hints.z, Some(150));

    let mut builder = ScenarioActionBuilder::new();
    builder.observe_visual_command(&args);
    assert_eq!(builder.actions.len(), 2);
    assert!(matches!(
        &builder.actions[0],
        ScenarioAction::Sprite { file, wait_frames: 19, slot: Some(5), x: Some(120), z: Some(300), opacity: None, body_layer: None }
            if file == "bg01"
    ));
    assert!(matches!(builder.actions[1], ScenarioAction::Wait { frames: 19 }));
}

#[test]
fn transform_hints_take_slot_opacity_and_position() {
    let args = vec![BcsValue::Int(2), BcsValue::Int(100), BcsValue::Int(128), BcsValue::Int(500), text("_MBS")];
    let hints = transform_hints(&args).expect("slot");
    assert_eq!(hints.slot, 2);
    assert_eq!(hints.wait_frames, 32);
    assert_eq!(hints.x, Some(100));
    assert_eq!(hints.y, None);
    assert_eq!(hints.opacity, Some(128));
    assert!(transform_hints(&[BcsValue::Int(100)]).is_none());

    let mut builder = ScenarioActionBuilder::new();
    builder.observe_script_call(&args);
    assert!(builder.actions.is_empty());
    assert!(matches!(
        builder.scheduled_actions[0],
        ScenarioAction::TransformSprite { slot: 2, wait_frames: 32, x: Some(100), y: None, opacity: Some(128) }
    ));
    // Without a slot the call only waits.
    builder.observe_script_call(&[BcsValue::Int(400), BcsValue::Int(160), text("_MBS")]);
    assert!(matches!(builder.actions[0], ScenarioAction::Wait { frames: 10 }));
}

#[test]
fn character_call_builds_the_sprite_name_from_earlier_settings() {
    let mut builder = ScenarioActionBuilder::new();
    builder.observe_script_call(&[BcsValue::Int(1), BcsValue::Int(3), text("_SetBSsize")]);
    builder.observe_script_call(&[BcsValue::Int(1), BcsValue::Int(12), text("_SetClothes")]);
    builder.observe_script_call(&[
        BcsValue::Int(1),
        BcsValue::Int(3),
        text("a"),
        text("01"),
        BcsValue::Int(300),
        text("_BS"),
    ]);
    assert!(builder.actions.is_empty());
    assert!(matches!(
        &builder.scheduled_actions[0],
        ScenarioAction::Sprite { file, wait_frames: 19, slot: Some(1), x: None, z: Some(71), opacity: None, body_layer: Some(layer) }
            if file == "M_koh_9_d_301" && layer == "ax11"
    ));
    // Unknown character slots show nothing.
    builder.observe_script_call(&[BcsValue::Int(2), text("a"), text("01"), text("_BS")]);
    assert_eq!(builder.scheduled_actions.len(), 1);
    // Executing releases the scheduled sprite and waits for its frames.
    builder.observe_script_call(&[text("_Exec")]);
    assert!(builder.scheduled_actions.is_empty());
    assert_eq!(builder.actions.len(), 2);
    assert!(matches!(builder.actions[0], ScenarioAction::Sprite { .. }));
    assert!(matches!(builder.actions[1], ScenarioAction::Wait { frames: 19 }));
}

#[test]
fn sound_commands_tell_music_from_effects() {
    let mut builder = ScenarioActionBuilder::new();
    builder.observe_sound_command(true, &[text("BGM_01")]);
    builder.observe_sound_command(false, &[text("bgm01")]);
    builder.observe_script_call(&[text("se_door"), text("_PlaySE")]);
    builder.observe_script_call(&[text("tay0001"), text("_PlayVoice")]);
    assert!(matches!(&builder.actions[0], ScenarioAction::Bgm { file } if file == "BGM_01"));
    assert!(matches!(&builder.actions[1], ScenarioAction::Sound { file } if file == "bgm01"));
    assert!(matches!(&builder.actions[2], ScenarioAction::Sound { file } if file == "se_door"));
    assert!(matches!(&builder.actions[3], ScenarioAction::Sound { file } if file == "tay0001"));
}

#[test]
fn message_markers_are_skipped() {
    let mut builder = ScenarioActionBuilder::new();
    builder.observe_message(&[text("空"), text("「はい」")]);
    assert_eq!(builder.actions.len(), 2);
    assert!(matches!(&builder.actions[0], ScenarioAction::Message { speaker: None, text } if text == "「はい」"));
    assert!(matches!(builder.actions[1], ScenarioAction::WaitForInput));
}

#[test]
fn fade_scene_hides_every_sprite_then_waits() {
    let mut builder = ScenarioActionBuilder::new();
    builder.observe_script_call(&[text("_FadeScene")]);
    assert!(matches!(builder.actions[0], ScenarioAction::HideSprite { slot: None, wait_frames: 1 }));
    assert!(matches!(builder.actions[1], ScenarioAction::Wait { frames: 1 }));
}
