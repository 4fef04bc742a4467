use vstd::prelude::*;
use std::collections::BTreeMap;
use crate::bcs::{BcsName, BcsValue, ints, ints_of, strings, strings_of, value_i32, value_int};
use crate::scenario::{
    body_layer_spec,
    character_body_layer_for_pose,
    character_name,
    character_name_spec,
    is_message_marker,
    size_prefix,
    size_prefix_spec,
    txt_suffix,
    is_message_text,
    is_speaker_label,
    message_marker_spec,
    message_text_spec,
    speaker_label_spec,
};
use crate::scenario_action::{
    ActionModel,
    ScenarioAction,
    ScriptTransfer,
    StrKind,
    VisualHints,
    action_wait_frames,
    actions_model,
    duration_frames,
    duration_frames_spec,
    draw_scene_hints,
    last_of_kind,
    last_str,
    last_string,
    transform_applies,
    transform_hints,
    transform_opacity_spec,
    transform_x_spec,
    last_string_of_kind,
    opt_chars,
    visual_hints,
    visual_slot_spec,
    visual_x_spec,
    visual_z_spec,
    wait_frames_of,
};
use crate::text::{
    chars_of,
    digit_char,
    ends_with,
    lower_seq,
    lower_vec,
    one_char,
    starts_with,
    string_of,
    vec_ends_with,
    vec_eq,
    vec_starts_with,
};

verus! {

/// What earlier calls set for one character slot.
#[derive(Debug, Clone, Copy)]
pub struct CharacterState {
    pub size: Option<i32>,
    pub clothes: Option<i32>,
}

/// Turns the engine commands a script invokes into scenario actions.
///
/// `actions` are ready to hand out; `scheduled_actions` wait for the next
/// execute call (`_Exec`), which releases them together.
#[derive(Debug)]
pub struct ScenarioActionBuilder {
    pub actions: Vec<ScenarioAction>,
    pub scheduled_actions: Vec<ScenarioAction>,
    pub characters: BTreeMap<i32, CharacterState>,
}

/// The builder's state: its ready and scheduled actions, and the
/// character settings by slot.
pub struct BuilderModel {
    pub actions: Seq<ActionModel>,
    pub scheduled: Seq<ActionModel>,
    pub characters: Map<i32, CharacterState>,
}

impl View for ScenarioActionBuilder {
    type V = BuilderModel;

    open spec fn view(&self) -> BuilderModel {
        BuilderModel {
            actions: actions_model(self.actions@),
            scheduled: actions_model(self.scheduled_actions@),
            characters: self.characters@,
        }
    }
}

/// The sprite action for `file` with the given hints.
pub open spec fn sprite_model(
    file: Seq<char>,
    frames: u32,
    slot: Option<i32>,
    x: Option<i32>,
    z: Option<i32>,
    opacity: Option<i32>,
    body_layer: Option<Seq<char>>,
) -> ActionModel {
    ActionModel::Sprite { file, wait_frames: frames, slot, x, z, opacity, body_layer }
}

/// Ready actions after showing a sprite now: the sprite, then a wait for its
/// frames.
pub open spec fn push_sprite_spec(m: BuilderModel, sprite: ActionModel, frames: u32) -> BuilderModel {
    BuilderModel {
        actions: m.actions.push(sprite).push(ActionModel::Wait { frames }),
        ..m
    }
}

/// The builder after scheduling a sprite for the next execute call.
pub open spec fn schedule_spec(m: BuilderModel, a: ActionModel) -> BuilderModel {
    BuilderModel { scheduled: m.scheduled.push(a), ..m }
}

/// The builder after one more ready action.
pub open spec fn emit_spec(m: BuilderModel, a: ActionModel) -> BuilderModel {
    BuilderModel { actions: m.actions.push(a), ..m }
}

/// The longest wait among actions, if any of them waits.
pub open spec fn max_wait(s: Seq<ActionModel>) -> Option<u32>
    decreases s.len(),
{
    if s.len() == 0 {
        None
    } else {
        let rest = max_wait(s.drop_last());
        match (wait_frames_of(s.last()), rest) {
            (Some(a), Some(b)) => Some(if a >= b { a } else { b }),
            (Some(a), None) => Some(a),
            (None, r) => r,
        }
    }
}

/// Releasing the scheduled actions: they follow the ready ones, and the
/// longest wait among them is reported; with none scheduled nothing changes.
pub open spec fn flush_spec(m: BuilderModel) -> (BuilderModel, Option<u32>) {
    if m.scheduled.len() == 0 {
        (m, None)
    } else {
        (
            BuilderModel { actions: m.actions + m.scheduled, scheduled: Seq::empty(), ..m },
            max_wait(m.scheduled),
        )
    }
}

/// The operands' duration in frames, one when they name none.
pub open spec fn frames_or_one(args: Seq<BcsValue>) -> u32 {
    match duration_frames_spec(args) {
        Some(f) => f,
        None => 1,
    }
}

/// A visual command: the sprite its resource names, placed by its hints.
pub open spec fn visual_command_spec(m: BuilderModel, args: Seq<BcsValue>) -> BuilderModel {
    match last_of_kind(strings_of(args), StrKind::Visual) {
        Some(file) => push_sprite_spec(
            m,
            sprite_model(
                file,
                frames_or_one(args),
                visual_slot_spec(args),
                visual_x_spec(args),
                visual_z_spec(args),
                None,
                None,
            ),
            frames_or_one(args),
        ),
        None => m,
    }
}

/// A sprite hide: hide the hinted slot (all when none), then wait.
pub open spec fn sprite_hide_spec(m: BuilderModel, args: Seq<BcsValue>) -> BuilderModel {
    let frames = frames_or_one(args);
    BuilderModel {
        actions: m.actions.push(
            ActionModel::HideSprite { slot: visual_slot_spec(args), wait_frames: frames },
        ).push(ActionModel::Wait { frames }),
        ..m
    }
}

/// A wait command: wait for the operands' duration, if they name one.
pub open spec fn wait_spec(m: BuilderModel, args: Seq<BcsValue>) -> BuilderModel {
    match duration_frames_spec(args) {
        Some(frames) => emit_spec(m, ActionModel::Wait { frames }),
        None => m,
    }
}

/// A scheduler yield: a zero-frame wait when its last integer is non-zero.
pub open spec fn yield_spec(m: BuilderModel, args: Seq<BcsValue>) -> BuilderModel {
    let all = ints_of(args);
    if all.len() > 0 && all.last() != 0 {
        emit_spec(m, ActionModel::Wait { frames: 0 })
    } else {
        m
    }
}

/// Messages of a list of strings: a speaker label names the speaker of the
/// next line; each line is shown and then waits for input; markers and
/// strings that are not message text are passed over. Returns the actions
/// and the speaker not yet used.
pub open spec fn message_fold(strs: Seq<Seq<char>>) -> (Seq<ActionModel>, Option<Seq<char>>)
    decreases strs.len(),
{
    if strs.len() == 0 {
        (Seq::empty(), None)
    } else {
        let (acts, speaker) = message_fold(strs.drop_last());
        let t = strs.last();
        if !message_text_spec(t) || message_marker_spec(t) {
            (acts, speaker)
        } else if speaker_label_spec(t) {
            (acts, Some(t))
        } else {
            (
                acts.push(ActionModel::Message { speaker, text: t }).push(
                    ActionModel::WaitForInput,
                ),
                None,
            )
        }
    }
}

/// Every line a message command shows is followed at once by a wait for
/// input, and the actions it makes are only lines and those waits.
pub proof fn law_every_message_waits_for_input(strs: Seq<Seq<char>>)
    ensures
        ({
            let acts = message_fold(strs).0;
            &&& acts.len() % 2 == 0
            &&& forall|i: int|
                0 <= i < acts.len() ==> (if i % 2 == 0 {
                    #[trigger] acts[i] is Message
                } else {
                    acts[i] is WaitForInput
                })
        }),
    decreases strs.len(),
{
    if strs.len() > 0 {
        law_every_message_waits_for_input(strs.drop_last());
        let prev = message_fold(strs.drop_last()).0;
        let acts = message_fold(strs).0;
        assert forall|i: int| 0 <= i < acts.len() implies (if i % 2 == 0 {
            #[trigger] acts[i] is Message
        } else {
            acts[i] is WaitForInput
        }) by {
            if i < prev.len() {
                assert(acts[i] == prev[i]);
            }
        }
    }
}

/// A message command: the messages its strings make.
pub open spec fn message_spec(m: BuilderModel, args: Seq<BcsValue>) -> BuilderModel {
    BuilderModel { actions: m.actions + message_fold(strings_of(args)).0, ..m }
}

/// A sound command: music when the instruction may carry music and the
/// name starts with `bgm` in any case, a sound effect otherwise.
pub open spec fn sound_spec(m: BuilderModel, may_be_music: bool, args: Seq<BcsValue>) -> BuilderModel {
    match last_of_kind(strings_of(args), StrKind::Resource) {
        Some(file) => if may_be_music && starts_with(lower_seq(file), seq!['b', 'g', 'm']) {
            emit_spec(m, ActionModel::Bgm { file })
        } else {
            emit_spec(m, ActionModel::Sound { file })
        },
        None => m,
    }
}

/// A script jump: load the last script name the operands hold.
pub open spec fn script_jump_spec(m: BuilderModel, args: Seq<BcsValue>) -> BuilderModel {
    match last_of_kind(strings_of(args), StrKind::Script) {
        Some(file) => emit_spec(
            m,
            ActionModel::LoadScript { file, symbol: None, transfer: ScriptTransfer::Jump },
        ),
        None => m,
    }
}

fn hints_sprite(file: String, frames: u32, hints: VisualHints) -> (out: ScenarioAction)
    ensures
        out@ == sprite_model(
            file@,
            frames,
            hints.slot,
            hints.x,
            hints.z,
            hints.opacity,
            opt_chars(hints.body_layer),
        ),
{
    ScenarioAction::Sprite {
        file,
        wait_frames: frames,
        slot: hints.slot,
        x: hints.x,
        z: hints.z,
        opacity: hints.opacity,
        body_layer: hints.body_layer,
    }
}

/// The library functions a script call can name.
#[derive(Debug, Clone, Copy, PartialEq, Eq, Structural)]
pub enum ScriptFunction {
    PlaySe,
    PlayVoice,
    PlayBgm,
    DrawScene,
    SetBsSize,
    SetClothes,
    /// `_BS`, `_BS_P`: schedule a character sprite.
    ShowCharacter,
    /// `_MBS`, `_FBS`, `_MSPR` and their `_P` forms: schedule a transform,
    /// or wait when the operands name no slot.
    TransformOrWait,
    /// `_SPR_P`: schedule a sprite.
    ScheduleSprite,
    /// `_SPR`: show a sprite now.
    ShowSprite,
    /// `_FSPR`, `_FSPR_P`: schedule a transform.
    Transform,
    /// `_Exec`, `_Exec_P`, `_ExecuteScheduledControl`.
    Execute,
    FadeScene,
    Wait,
    WaitReturnValued,
    Other,
}

/// The library function a script call's name selects.
pub open spec fn script_function_spec(t: Seq<char>) -> ScriptFunction {
    if t == "_PlaySE"@ {
        ScriptFunction::PlaySe
    } else if t == "_PlayVoice"@ {
        ScriptFunction::PlayVoice
    } else if t == "_PlayBGM"@ {
        ScriptFunction::PlayBgm
    } else if t == "_DrawScene"@ {
        ScriptFunction::DrawScene
    } else if t == "_SetBSsize"@ {
        ScriptFunction::SetBsSize
    } else if t == "_SetClothes"@ {
        ScriptFunction::SetClothes
    } else if t == "_BS_P"@ || t == "_BS"@ {
        ScriptFunction::ShowCharacter
    } else if t == "_MBS_P"@ || t == "_MBS"@ || t == "_FBS_P"@ || t == "_FBS"@ || t == "_MSPR_P"@
        || t == "_MSPR"@ {
        ScriptFunction::TransformOrWait
    } else if t == "_SPR_P"@ {
        ScriptFunction::ScheduleSprite
    } else if t == "_SPR"@ {
        ScriptFunction::ShowSprite
    } else if t == "_FSPR_P"@ || t == "_FSPR"@ {
        ScriptFunction::Transform
    } else if t == "_Exec_P"@ || t == "_Exec"@ || t == "_ExecuteScheduledControl"@ {
        ScriptFunction::Execute
    } else if t == "_FadeScene"@ {
        ScriptFunction::FadeScene
    } else if t == "_Wait"@ {
        ScriptFunction::Wait
    } else if t == "_WaitReturnValued"@ {
        ScriptFunction::WaitReturnValued
    } else {
        ScriptFunction::Other
    }
}

fn is_name(t: &Vec<char>, name: &str) -> (out: bool)
    ensures
        out == (t@ == name@),
{
    vec_eq(t, &chars_of(name))
}

/// The library function a script call's name selects.
pub fn script_function(name: &str) -> (out: ScriptFunction)
    ensures
        out == script_function_spec(name@),
{
    let t = chars_of(name);
    if is_name(&t, "_PlaySE") {
        ScriptFunction::PlaySe
    } else if is_name(&t, "_PlayVoice") {
        ScriptFunction::PlayVoice
    } else if is_name(&t, "_PlayBGM") {
        ScriptFunction::PlayBgm
    } else if is_name(&t, "_DrawScene") {
        ScriptFunction::DrawScene
    } else if is_name(&t, "_SetBSsize") {
        ScriptFunction::SetBsSize
    } else if is_name(&t, "_SetClothes") {
        ScriptFunction::SetClothes
    } else if is_name(&t, "_BS_P") || is_name(&t, "_BS") {
        ScriptFunction::ShowCharacter
    } else if is_name(&t, "_MBS_P") || is_name(&t, "_MBS") || is_name(&t, "_FBS_P") || is_name(
        &t,
        "_FBS",
    ) || is_name(&t, "_MSPR_P") || is_name(&t, "_MSPR") {
        ScriptFunction::TransformOrWait
    } else if is_name(&t, "_SPR_P") {
        ScriptFunction::ScheduleSprite
    } else if is_name(&t, "_SPR") {
        ScriptFunction::ShowSprite
    } else if is_name(&t, "_FSPR_P") || is_name(&t, "_FSPR") {
        ScriptFunction::Transform
    } else if is_name(&t, "_Exec_P") || is_name(&t, "_Exec") || is_name(
        &t,
        "_ExecuteScheduledControl",
    ) {
        ScriptFunction::Execute
    } else if is_name(&t, "_FadeScene") {
        ScriptFunction::FadeScene
    } else if is_name(&t, "_Wait") {
        ScriptFunction::Wait
    } else if is_name(&t, "_WaitReturnValued") {
        ScriptFunction::WaitReturnValued
    } else {
        ScriptFunction::Other
    }
}

/// An operand string that can name a character's pose or face: no leading
/// `_`, no `.txt` suffix, and not `macro_story` in any case.
pub open spec fn pose_name_spec(t: Seq<char>) -> bool {
    !starts_with(t, seq!['_']) && !ends_with(t, txt_suffix()) && lower_seq(t) != seq![
        'm',
        'a',
        'c',
        'r',
        'o',
        '_',
        's',
        't',
        'o',
        'r',
        'y',
    ]
}

/// The top-level operand strings that can name a pose or face, in order.
pub open spec fn pose_names(values: Seq<BcsValue>) -> Seq<Seq<char>>
    decreases values.len(),
{
    if values.len() == 0 {
        Seq::empty()
    } else {
        let prev = pose_names(values.drop_last());
        match values.last() {
            BcsValue::Str(t) => if pose_name_spec(t@) {
                prev.push(t@)
            } else {
                prev
            },
            _ => prev,
        }
    }
}

/// `v` limited to `1..=9`.
pub open spec fn one_to_nine(v: i32) -> int {
    if v < 1 {
        1
    } else if v > 9 {
        9
    } else {
        v as int
    }
}

/// A character sprite request.
pub struct CharacterSpriteModel {
    pub file: Seq<char>,
    pub wait_frames: u32,
    pub slot: i32,
    pub body_layer: Option<Seq<char>>,
}

/// The sprite a character call (`_BS`) shows: the first operand is the
/// slot, the second the body (default 1), the first two pose names the pose
/// and face; the slot's size (default 2) and clothes (default 1) come from
/// earlier calls. The file reads `{size}_{character}_{clothes}_d_{body}{face}`
/// with clothes and body limited to `1..=9`. None when the slot is not a
/// known character or fewer than two names are given.
pub open spec fn character_sprite_spec(
    characters: Map<i32, CharacterState>,
    args: Seq<BcsValue>,
) -> Option<CharacterSpriteModel> {
    if args.len() == 0 {
        None
    } else {
        match value_int(args[0]) {
            None => None,
            Some(slot) => {
                let body = if args.len() > 1 {
                    match value_int(args[1]) {
                        Some(b) => b,
                        None => 1i32,
                    }
                } else {
                    1i32
                };
                let names = pose_names(args);
                if names.len() < 2 {
                    None
                } else {
                    match character_name_spec(slot) {
                        None => None,
                        Some(character) => {
                            let state = if characters.contains_key(slot) {
                                characters[slot]
                            } else {
                                CharacterState { size: None, clothes: None }
                            };
                            let size = size_prefix_spec(
                                match state.size {
                                    Some(s) => s,
                                    None => 2i32,
                                },
                            );
                            let clothes = one_to_nine(
                                match state.clothes {
                                    Some(c) => c,
                                    None => 1i32,
                                },
                            );
                            let file = size + seq!['_'] + character + seq![
                                '_',
                                digit_char(clothes as nat),
                                '_',
                                'd',
                                '_',
                                digit_char(one_to_nine(body) as nat),
                            ] + names[1];
                            Some(
                                CharacterSpriteModel {
                                    file,
                                    wait_frames: frames_or_one(args),
                                    slot,
                                    body_layer: body_layer_spec(names[0]),
                                },
                            )
                        },
                    }
                }
            },
        }
    }
}

/// The transform a call's operands describe (see `transform_hints`).
pub open spec fn transform_model(args: Seq<BcsValue>) -> ActionModel {
    ActionModel::TransformSprite {
        slot: ints_of(args)[0],
        wait_frames: frames_or_one(args),
        x: transform_x_spec(args),
        y: None,
        opacity: transform_opacity_spec(args),
    }
}

/// The builder after a call sets one field of a slot's character state.
pub open spec fn set_character_spec(m: BuilderModel, args: Seq<BcsValue>, size: bool) -> BuilderModel {
    let all = ints_of(args);
    if all.len() < 2 {
        m
    } else {
        let slot = all[all.len() - 2];
        let v = all.last();
        let old_state = if m.characters.contains_key(slot) {
            m.characters[slot]
        } else {
            CharacterState { size: None, clothes: None }
        };
        let new_state = if size {
            CharacterState { size: Some(v), ..old_state }
        } else {
            CharacterState { clothes: Some(v), ..old_state }
        };
        BuilderModel { characters: m.characters.insert(slot, new_state), ..m }
    }
}

/// A transform, or a wait for the operands' duration when they name no slot.
pub open spec fn transform_or_wait_spec(m: BuilderModel, args: Seq<BcsValue>) -> BuilderModel {
    if transform_applies(args) {
        schedule_spec(m, transform_model(args))
    } else {
        wait_spec(m, args)
    }
}

/// A script call (`_Name` as its last string): what the named library
/// function does to the actions.
pub open spec fn script_call_spec(m: BuilderModel, args: Seq<BcsValue>) -> BuilderModel {
    let strs = strings_of(args);
    match last_str(strs) {
        None => m,
        Some(f) => if !starts_with(f, seq!['_']) {
            m
        } else {
            match script_function_spec(f) {
                ScriptFunction::PlaySe => match last_of_kind(strs, StrKind::SoundEffect) {
                    Some(file) => emit_spec(m, ActionModel::Sound { file }),
                    None => m,
                },
                ScriptFunction::PlayVoice => match last_of_kind(strs, StrKind::Resource) {
                    Some(file) => emit_spec(m, ActionModel::Sound { file }),
                    None => m,
                },
                ScriptFunction::PlayBgm => match last_of_kind(strs, StrKind::Resource) {
                    Some(file) => emit_spec(m, ActionModel::Bgm { file }),
                    None => m,
                },
                ScriptFunction::DrawScene => match last_of_kind(strs, StrKind::Visual) {
                    Some(file) => push_sprite_spec(
                        emit_spec(m, ActionModel::ClearSprite),
                        sprite_model(
                            file,
                            frames_or_one(args),
                            None,
                            None,
                            Some(10i32),
                            None,
                            None,
                        ),
                        frames_or_one(args),
                    ),
                    None => m,
                },
                ScriptFunction::SetBsSize => set_character_spec(m, args, true),
                ScriptFunction::SetClothes => set_character_spec(m, args, false),
                ScriptFunction::ShowCharacter => match character_sprite_spec(m.characters, args) {
                    Some(c) => schedule_spec(
                        m,
                        sprite_model(
                            c.file,
                            c.wait_frames,
                            Some(c.slot),
                            None,
                            Some((70 + c.slot) as i32),
                            None,
                            c.body_layer,
                        ),
                    ),
                    None => m,
                },
                ScriptFunction::TransformOrWait => transform_or_wait_spec(m, args),
                ScriptFunction::ScheduleSprite => match last_of_kind(strs, StrKind::Visual) {
                    Some(file) => schedule_spec(
                        m,
                        sprite_model(
                            file,
                            frames_or_one(args),
                            visual_slot_spec(args),
                            visual_x_spec(args),
                            visual_z_spec(args),
                            None,
                            None,
                        ),
                    ),
                    None => m,
                },
                ScriptFunction::ShowSprite => visual_command_spec(m, args),
                ScriptFunction::Transform => if transform_applies(args) {
                    schedule_spec(m, transform_model(args))
                } else {
                    m
                },
                ScriptFunction::Execute => {
                    let (flushed, scheduled_wait) = flush_spec(m);
                    let wait = match duration_frames_spec(args) {
                        Some(f) => Some(f),
                        None => scheduled_wait,
                    };
                    match wait {
                        Some(frames) => emit_spec(flushed, ActionModel::Wait { frames }),
                        None => flushed,
                    }
                },
                ScriptFunction::FadeScene => {
                    let frames = frames_or_one(args);
                    BuilderModel {
                        actions: m.actions.push(
                            ActionModel::HideSprite { slot: None, wait_frames: frames },
                        ).push(ActionModel::Wait { frames }),
                        ..m
                    }
                },
                ScriptFunction::Wait => wait_spec(m, args),
                ScriptFunction::WaitReturnValued => emit_spec(m, ActionModel::WaitForInput),
                ScriptFunction::Other => m,
            }
        },
    }
}

impl ScenarioActionBuilder {
    /// An empty builder.
    pub fn new() -> (out: Self)
        ensures
            out@.actions.len() == 0,
            out@.scheduled.len() == 0,
            out@.characters == Map::<i32, CharacterState>::empty(),
    {
        ScenarioActionBuilder {
            actions: Vec::new(),
            scheduled_actions: Vec::new(),
            characters: BTreeMap::new(),
        }
    }

    /// Appends a ready action.
    pub fn emit(&mut self, action: ScenarioAction)
        ensures
            final(self)@ == emit_spec(old(self)@, action@),
    {
        let ghost before = self.actions@;
        self.actions.push(action);
        assert(actions_model(self.actions@) =~= actions_model(before).push(action@));
    }

    /// Takes out the first ready action.
    pub fn take_first(&mut self) -> (out: ScenarioAction)
        requires
            old(self)@.actions.len() > 0,
        ensures
            out@ == old(self)@.actions[0],
            final(self)@ == (BuilderModel { actions: old(self)@.actions.drop_first(), ..old(self)@ }),
    {
        let ghost before = self.actions@;
        let out = self.actions.remove(0);
        assert(actions_model(self.actions@) =~= actions_model(before).drop_first());
        out
    }

    /// Appends an action to those that wait for the next execute call.
    pub fn schedule(&mut self, action: ScenarioAction)
        ensures
            final(self)@ == schedule_spec(old(self)@, action@),
    {
        let ghost before = self.scheduled_actions@;
        self.scheduled_actions.push(action);
        assert(actions_model(self.scheduled_actions@) =~= actions_model(before).push(action@));
    }

    /// Shows a sprite now and waits for its frames.
    pub fn push_sprite_with_hints(&mut self, file: String, frames: u32, hints: VisualHints)
        ensures
            final(self)@ == push_sprite_spec(
                old(self)@,
                sprite_model(
                    file@,
                    frames,
                    hints.slot,
                    hints.x,
                    hints.z,
                    hints.opacity,
                    opt_chars(hints.body_layer),
                ),
                frames,
            ),
    {
        self.emit(hints_sprite(file, frames, hints));
        self.emit(ScenarioAction::Wait { frames });
    }

    /// Schedules a sprite for the next execute call.
    pub fn schedule_sprite_with_hints(&mut self, file: String, frames: u32, hints: VisualHints)
        ensures
            final(self)@ == schedule_spec(
                old(self)@,
                sprite_model(
                    file@,
                    frames,
                    hints.slot,
                    hints.x,
                    hints.z,
                    hints.opacity,
                    opt_chars(hints.body_layer),
                ),
            ),
    {
        self.schedule(hints_sprite(file, frames, hints));
    }

    /// Releases the scheduled actions after the ready ones and reports the
    /// longest wait among them.
    pub fn flush_scheduled_actions(&mut self) -> (out: Option<u32>)
        ensures
            (final(self)@, out) == flush_spec(old(self)@),
    {
        if self.scheduled_actions.len() == 0 {
            return None;
        }
        let ghost sched = actions_model(self.scheduled_actions@);
        let mut wait: Option<u32> = None;
        let mut i: usize = 0;
        while i < self.scheduled_actions.len()
            invariant
                i <= self.scheduled_actions@.len(),
                sched == actions_model(self.scheduled_actions@),
                wait == max_wait(sched.take(i as int)),
            decreases self.scheduled_actions@.len() - i,
        {
            assert(sched.take(i as int + 1).drop_last() =~= sched.take(i as int));
            let w = action_wait_frames(&self.scheduled_actions[i]);
            wait = match (w, wait) {
                (Some(a), Some(b)) => Some(if a >= b { a } else { b }),
                (Some(a), None) => Some(a),
                (None, r) => r,
            };
            i += 1;
        }
        assert(sched.take(sched.len() as int) =~= sched);
        let ghost before = self.actions@;
        let mut moved = Vec::new();
        std::mem::swap(&mut moved, &mut self.scheduled_actions);
        self.actions.append(&mut moved);
        assert(actions_model(self.actions@) =~= actions_model(before) + sched);
        assert(actions_model(self.scheduled_actions@) =~= Seq::<ActionModel>::empty());
        wait
    }

    /// A visual command: shows the sprite its resource names.
    pub fn observe_visual_command(&mut self, args: &[BcsValue])
        ensures
            final(self)@ == visual_command_spec(old(self)@, args@),
    {
        if let Some(file) = last_string_of_kind(args, StrKind::Visual) {
            let frames = match duration_frames(args) {
                Some(f) => f,
                None => 1,
            };
            self.push_sprite_with_hints(file, frames, visual_hints(args));
        }
    }

    /// A sprite hide: hides the hinted slot, then waits.
    pub fn observe_sprite_hide(&mut self, args: &[BcsValue])
        ensures
            final(self)@ == sprite_hide_spec(old(self)@, args@),
    {
        let hints = visual_hints(args);
        let frames = match duration_frames(args) {
            Some(f) => f,
            None => 1,
        };
        self.emit(ScenarioAction::HideSprite { slot: hints.slot, wait_frames: frames });
        self.emit(ScenarioAction::Wait { frames });
    }

    /// A wait command.
    pub fn observe_wait(&mut self, args: &[BcsValue])
        ensures
            final(self)@ == wait_spec(old(self)@, args@),
    {
        if let Some(frames) = duration_frames(args) {
            self.emit(ScenarioAction::Wait { frames });
        }
    }

    /// A scheduler yield.
    pub fn observe_yield(&mut self, args: &[BcsValue])
        ensures
            final(self)@ == yield_spec(old(self)@, args@),
    {
        let all = ints(args);
        let last = if all.len() > 0 {
            all[all.len() - 1]
        } else {
            0
        };
        if last != 0 {
            self.emit(ScenarioAction::Wait { frames: 0 });
        }
    }

    /// A message command: each line, with the speaker label before it, then
    /// a wait for input.
    pub fn observe_message(&mut self, args: &[BcsValue])
        ensures
            final(self)@ == message_spec(old(self)@, args@),
    {
        let texts = strings(args);
        let ghost strs = strings_of(args@);
        let ghost start = self@;
        let mut speaker: Option<String> = None;
        let mut i: usize = 0;
        assert(strs.take(0) =~= Seq::<Seq<char>>::empty());
        assert(start.actions + Seq::<ActionModel>::empty() =~= start.actions);
        while i < texts.len()
            invariant
                i <= texts@.len(),
                strs == strings_of(args@),
                texts@.map_values(|s: String| s@) == strs,
                self@.actions == start.actions + message_fold(strs.take(i as int)).0,
                self@.scheduled == start.scheduled,
                self@.characters == start.characters,
                opt_chars(speaker) == message_fold(strs.take(i as int)).1,
            decreases texts@.len() - i,
        {
            assert(strs.take(i as int + 1).drop_last() =~= strs.take(i as int));
            assert(strs.take(i as int + 1).last() == texts@[i as int]@);
            let text = texts[i].clone();
            if is_message_text(text.as_str()) && !is_message_marker(text.as_str()) {
                if is_speaker_label(text.as_str()) {
                    speaker = Some(text);
                } else {
                    let ghost acts = self@.actions;
                    let who = speaker;
                    speaker = None;
                    self.emit(ScenarioAction::Message { speaker: who, text });
                    self.emit(ScenarioAction::WaitForInput);
                    assert(self@.actions =~= start.actions + message_fold(
                        strs.take(i as int + 1),
                    ).0);
                }
            }
            i += 1;
        }
        assert(strs.take(texts@.len() as int) =~= strs);
    }

    /// A sound command.
    pub fn observe_sound_command(&mut self, may_be_music: bool, args: &[BcsValue])
        ensures
            final(self)@ == sound_spec(old(self)@, may_be_music, args@),
    {
        if let Some(file) = last_string_of_kind(args, StrKind::Resource) {
            let music = may_be_music && vec_starts_with(
                &lower_vec(&chars_of(file.as_str())),
                &vec!['b', 'g', 'm'],
            );
            if music {
                self.emit(ScenarioAction::Bgm { file });
            } else {
                self.emit(ScenarioAction::Sound { file });
            }
        }
    }

    /// A script jump command.
    pub fn observe_script_jump(&mut self, args: &[BcsValue])
        ensures
            final(self)@ == script_jump_spec(old(self)@, args@),
    {
        if let Some(file) = last_string_of_kind(args, StrKind::Script) {
            self.emit(
                ScenarioAction::LoadScript { file, symbol: None, transfer: ScriptTransfer::Jump },
            );
        }
    }
}

/// What an engine command invocation does to the builder.
pub open spec fn invocation_spec(m: BuilderModel, opcode: u32, name: BcsName, args: Seq<BcsValue>) -> BuilderModel {
    if opcode == 0x1c {
        script_call_spec(m, args)
    } else if name == BcsName::Sprite || name == BcsName::Bg || name == BcsName::BgTransition || name
        == BcsName::Bg240 {
        visual_command_spec(m, args)
    } else if name == BcsName::SpriteHide || name == BcsName::SpriteHideAll {
        sprite_hide_spec(m, args)
    } else if name == BcsName::Wait {
        wait_spec(m, args)
    } else if name == BcsName::Cmd0x120 {
        yield_spec(m, args)
    } else if name == BcsName::Say || name == BcsName::Msg {
        message_spec(m, args)
    } else if name == BcsName::Sound || name == BcsName::Sound1a0 || name == BcsName::Snd {
        sound_spec(m, name == BcsName::Sound || name == BcsName::Sound1a0, args)
    } else if name == BcsName::ExecScript || opcode == 0xf3 {
        script_jump_spec(m, args)
    } else {
        m
    }
}

impl ScenarioActionBuilder {
    /// Records what an engine command invocation means for presentation
    /// (see [`invocation_spec`]).
    pub fn observe_invocation(&mut self, opcode: u32, name: BcsName, args: &[BcsValue])
        ensures
            final(self)@ == invocation_spec(old(self)@, opcode, name, args@),
    {
        if opcode == 0x1c {
            self.observe_script_call(args);
        } else if name == BcsName::Sprite || name == BcsName::Bg || name == BcsName::BgTransition
            || name == BcsName::Bg240 {
            self.observe_visual_command(args);
        } else if name == BcsName::SpriteHide || name == BcsName::SpriteHideAll {
            self.observe_sprite_hide(args);
        } else if name == BcsName::Wait {
            self.observe_wait(args);
        } else if name == BcsName::Cmd0x120 {
            self.observe_yield(args);
        } else if name == BcsName::Say || name == BcsName::Msg {
            self.observe_message(args);
        } else if name == BcsName::Sound || name == BcsName::Sound1a0 || name == BcsName::Snd {
            self.observe_sound_command(name == BcsName::Sound || name == BcsName::Sound1a0, args);
        } else if name == BcsName::ExecScript || opcode == 0xf3 {
            self.observe_script_jump(args);
        }
    }

    fn pose_names_of(args: &[BcsValue]) -> (out: Vec<String>)
        ensures
            out@.map_values(|s: String| s@) == pose_names(args@),
    {
        let mut out: Vec<String> = Vec::new();
        let mut i: usize = 0;
        let macro_story: Vec<char> = vec!['m', 'a', 'c', 'r', 'o', '_', 's', 't', 'o', 'r', 'y'];
        while i < args.len()
            invariant
                i <= args@.len(),
                macro_story@ == seq!['m', 'a', 'c', 'r', 'o', '_', 's', 't', 'o', 'r', 'y'],
                out@.map_values(|s: String| s@) == pose_names(args@.take(i as int)),
            decreases args@.len() - i,
        {
            assert(args@.take(i as int + 1).drop_last() =~= args@.take(i as int));
            let ghost before = out@.map_values(|s: String| s@);
            match &args[i] {
                BcsValue::Str(t) => {
                    let v = chars_of(t.as_str());
                    let ok = !vec_starts_with(&v, &one_char('_')) && !vec_ends_with(
                        &v,
                        &vec!['.', 't', 'x', 't'],
                    ) && !vec_eq(&lower_vec(&v), &macro_story);
                    if ok {
                        out.push(t.clone());
                        assert(out@.map_values(|s: String| s@) =~= before.push(t@));
                    }
                },
                _ => {},
            }
            i += 1;
        }
        assert(args@.take(args@.len() as int) =~= args@);
        out
    }

    fn one_to_nine_digit(v: i32) -> (out: char)
        ensures
            out == digit_char(one_to_nine(v) as nat),
    {
        let d: u8 = if v < 1 {
            1
        } else if v > 9 {
            9
        } else {
            v as u8
        };
        (d + 48) as char
    }

    /// The sprite a character call shows (see [`character_sprite_spec`]).
    pub fn character_sprite_from_bs(&self, args: &[BcsValue]) -> (out: Option<(String, u32, i32, Option<String>)>)
        ensures
            match (out, character_sprite_spec(self@.characters, args@)) {
                (Some((file, wait, slot, layer)), Some(c)) => file@ == c.file && wait == c.wait_frames
                    && slot == c.slot && opt_chars(layer) == c.body_layer,
                (None, None) => true,
                _ => false,
            },
    {
        broadcast use vstd::std_specs::btree::group_btree_axioms, vstd::laws_cmp::group_laws_cmp;

        if args.len() == 0 {
            return None;
        }
        let slot = match value_i32(&args[0]) {
            Some(s) => s,
            None => return None,
        };
        let body: i32 = if args.len() > 1 {
            match value_i32(&args[1]) {
                Some(b) => b,
                None => 1,
            }
        } else {
            1
        };
        let names = Self::pose_names_of(args);
        proof {
            assert(names@.map_values(|s: String| s@).len() == names@.len());
        }
        if names.len() < 2 {
            return None;
        }
        let character = match character_name(slot) {
            Some(c) => c,
            None => return None,
        };
        let state = match self.characters.get(&slot) {
            Some(s) => *s,
            None => CharacterState { size: None, clothes: None },
        };
        let size = size_prefix(
            match state.size {
                Some(s) => s,
                None => 2,
            },
        );
        let clothes = Self::one_to_nine_digit(
            match state.clothes {
                Some(c) => c,
                None => 1,
            },
        );
        let body_digit = Self::one_to_nine_digit(body);
        let mut file: Vec<char> = chars_of(size.as_str());
        file.push('_');
        let mut c = chars_of(character.as_str());
        file.append(&mut c);
        file.push('_');
        file.push(clothes);
        file.push('_');
        file.push('d');
        file.push('_');
        file.push(body_digit);
        let mut face = chars_of(names[1].as_str());
        file.append(&mut face);
        let wait = match duration_frames(args) {
            Some(f) => f,
            None => 1,
        };
        let layer = character_body_layer_for_pose(names[0].as_str());
        let ghost c_spec = character_sprite_spec(self@.characters, args@);
        assert(c_spec is Some);
        assert(file@ =~= c_spec->0.file);
        Some((string_of(&file), wait, slot, layer))
    }

    fn set_character(&mut self, args: &[BcsValue], size: bool)
        ensures
            final(self)@ == set_character_spec(old(self)@, args@, size),
    {
        broadcast use vstd::std_specs::btree::group_btree_axioms, vstd::laws_cmp::group_laws_cmp;

        let all = ints(args);
        if all.len() < 2 {
            return;
        }
        let slot = all[all.len() - 2];
        let v = all[all.len() - 1];
        let old_state = match self.characters.get(&slot) {
            Some(s) => *s,
            None => CharacterState { size: None, clothes: None },
        };
        let new_state = if size {
            CharacterState { size: Some(v), clothes: old_state.clothes }
        } else {
            CharacterState { size: old_state.size, clothes: Some(v) }
        };
        self.characters.insert(slot, new_state);
    }

    fn transform_action(args: &[BcsValue]) -> (out: Option<ScenarioAction>)
        ensures
            out is Some <==> transform_applies(args@),
            out matches Some(a) ==> a@ == transform_model(args@),
    {
        match transform_hints(args) {
            Some(h) => Some(
                ScenarioAction::TransformSprite {
                    slot: h.slot,
                    wait_frames: h.wait_frames,
                    x: h.x,
                    y: h.y,
                    opacity: h.opacity,
                },
            ),
            None => None,
        }
    }

    /// A script call: what the named library function does (see
    /// [`script_call_spec`]).
    pub fn observe_script_call(&mut self, args: &[BcsValue])
        ensures
            final(self)@ == script_call_spec(old(self)@, args@),
    {
        let function = match last_string(args) {
            Some(f) => f,
            None => return,
        };
        if !vec_starts_with(&chars_of(function.as_str()), &one_char('_')) {
            return;
        }
        match script_function(function.as_str()) {
            ScriptFunction::PlaySe => {
                if let Some(file) = last_string_of_kind(args, StrKind::SoundEffect) {
                    self.emit(ScenarioAction::Sound { file });
                }
            },
            ScriptFunction::PlayVoice => {
                if let Some(file) = last_string_of_kind(args, StrKind::Resource) {
                    self.emit(ScenarioAction::Sound { file });
                }
            },
            ScriptFunction::PlayBgm => {
                if let Some(file) = last_string_of_kind(args, StrKind::Resource) {
                    self.emit(ScenarioAction::Bgm { file });
                }
            },
            ScriptFunction::DrawScene => {
                if let Some(file) = last_string_of_kind(args, StrKind::Visual) {
                    self.emit(ScenarioAction::ClearSprite);
                    let frames = match duration_frames(args) {
                        Some(f) => f,
                        None => 1,
                    };
                    self.push_sprite_with_hints(file, frames, draw_scene_hints(args));
                }
            },
            ScriptFunction::SetBsSize => self.set_character(args, true),
            ScriptFunction::SetClothes => self.set_character(args, false),
            ScriptFunction::ShowCharacter => {
                if let Some((file, wait, slot, layer)) = self.character_sprite_from_bs(args) {
                    self.schedule_sprite_with_hints(
                        file,
                        wait,
                        VisualHints {
                            slot: Some(slot),
                            x: None,
                            z: Some(70 + slot),
                            opacity: None,
                            body_layer: layer,
                        },
                    );
                }
            },
            ScriptFunction::TransformOrWait => {
                match Self::transform_action(args) {
                    Some(a) => self.schedule(a),
                    None => self.observe_wait(args),
                }
            },
            ScriptFunction::ScheduleSprite => {
                if let Some(file) = last_string_of_kind(args, StrKind::Visual) {
                    let frames = match duration_frames(args) {
                        Some(f) => f,
                        None => 1,
                    };
                    self.schedule_sprite_with_hints(file, frames, visual_hints(args));
                }
            },
            ScriptFunction::ShowSprite => self.observe_visual_command(args),
            ScriptFunction::Transform => {
                if let Some(a) = Self::transform_action(args) {
                    self.schedule(a);
                }
            },
            ScriptFunction::Execute => {
                let scheduled_wait = self.flush_scheduled_actions();
                let wait = match duration_frames(args) {
                    Some(f) => Some(f),
                    None => scheduled_wait,
                };
                if let Some(frames) = wait {
                    self.emit(ScenarioAction::Wait { frames });
                }
            },
            ScriptFunction::FadeScene => {
                let frames = match duration_frames(args) {
                    Some(f) => f,
                    None => 1,
                };
                self.emit(ScenarioAction::HideSprite { slot: None, wait_frames: frames });
                self.emit(ScenarioAction::Wait { frames });
            },
            ScriptFunction::Wait => self.observe_wait(args),
            ScriptFunction::WaitReturnValued => self.emit(ScenarioAction::WaitForInput),
            ScriptFunction::Other => {},
        }
    }
}

} // verus!
