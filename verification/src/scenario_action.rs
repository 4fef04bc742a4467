use vstd::prelude::*;
use crate::bcs::{BcsValue, ints, ints_of, strings, strings_of, value_i32};
use crate::scenario::{looks_like_resource_name, looks_like_script_name, resource_name_spec, script_name_spec};
use crate::text::{chars_of, starts_with, vec_starts_with};

verus! {

/// How a script transfer hands control to another script.
#[derive(Debug, Clone, Copy, PartialEq, Eq, Structural)]
pub enum ScriptTransfer {
    Call,
    Jump,
}

/// A presentation step that scenario playback asks the host to perform.
///
/// Opacities are the script's raw fixed-point values, where 256 is fully
/// opaque.
#[derive(Debug)]
pub enum ScenarioAction {
    Sound { file: String },
    Bgm { file: String },
    Sprite {
        file: String,
        wait_frames: u32,
        slot: Option<i32>,
        x: Option<i32>,
        z: Option<i32>,
        opacity: Option<i32>,
        body_layer: Option<String>,
    },
    TransformSprite { slot: i32, wait_frames: u32, x: Option<i32>, y: Option<i32>, opacity: Option<i32> },
    HideSprite { slot: Option<i32>, wait_frames: u32 },
    Message { speaker: Option<String>, text: String },
    Wait { frames: u32 },
    WaitForInput,
    ClearSprite,
    LoadScript { file: String, symbol: Option<String>, transfer: ScriptTransfer },
}

/// A scenario action with its strings taken as character sequences.
pub enum ActionModel {
    Sound { file: Seq<char> },
    Bgm { file: Seq<char> },
    Sprite {
        file: Seq<char>,
        wait_frames: u32,
        slot: Option<i32>,
        x: Option<i32>,
        z: Option<i32>,
        opacity: Option<i32>,
        body_layer: Option<Seq<char>>,
    },
    TransformSprite { slot: i32, wait_frames: u32, x: Option<i32>, y: Option<i32>, opacity: Option<i32> },
    HideSprite { slot: Option<i32>, wait_frames: u32 },
    Message { speaker: Option<Seq<char>>, text: Seq<char> },
    Wait { frames: u32 },
    WaitForInput,
    ClearSprite,
    LoadScript { file: Seq<char>, symbol: Option<Seq<char>>, transfer: ScriptTransfer },
}

/// The characters of an optional string.
pub open spec fn opt_chars(s: Option<String>) -> Option<Seq<char>> {
    match s {
        Some(t) => Some(t@),
        None => None,
    }
}

impl View for ScenarioAction {
    type V = ActionModel;

    open spec fn view(&self) -> ActionModel {
        match self {
            ScenarioAction::Sound { file } => ActionModel::Sound { file: file@ },
            ScenarioAction::Bgm { file } => ActionModel::Bgm { file: file@ },
            ScenarioAction::Sprite { file, wait_frames, slot, x, z, opacity, body_layer } =>
                ActionModel::Sprite {
                file: file@,
                wait_frames: *wait_frames,
                slot: *slot,
                x: *x,
                z: *z,
                opacity: *opacity,
                body_layer: opt_chars(*body_layer),
            },
            ScenarioAction::TransformSprite { slot, wait_frames, x, y, opacity } =>
                ActionModel::TransformSprite {
                slot: *slot,
                wait_frames: *wait_frames,
                x: *x,
                y: *y,
                opacity: *opacity,
            },
            ScenarioAction::HideSprite { slot, wait_frames } => ActionModel::HideSprite {
                slot: *slot,
                wait_frames: *wait_frames,
            },
            ScenarioAction::Message { speaker, text } => ActionModel::Message {
                speaker: opt_chars(*speaker),
                text: text@,
            },
            ScenarioAction::Wait { frames } => ActionModel::Wait { frames: *frames },
            ScenarioAction::WaitForInput => ActionModel::WaitForInput,
            ScenarioAction::ClearSprite => ActionModel::ClearSprite,
            ScenarioAction::LoadScript { file, symbol, transfer } => ActionModel::LoadScript {
                file: file@,
                symbol: opt_chars(*symbol),
                transfer: *transfer,
            },
        }
    }
}

/// The models of a list of actions.
pub open spec fn actions_model(v: Seq<ScenarioAction>) -> Seq<ActionModel> {
    v.map_values(|a: ScenarioAction| a@)
}

/// The frames an action holds playback for, if it is one that does.
pub open spec fn wait_frames_of(a: ActionModel) -> Option<u32> {
    match a {
        ActionModel::Sprite { wait_frames, .. } => Some(wait_frames),
        ActionModel::HideSprite { wait_frames, .. } => Some(wait_frames),
        ActionModel::TransformSprite { wait_frames, .. } => Some(wait_frames),
        ActionModel::Wait { frames } => Some(frames),
        _ => None,
    }
}

/// The frames an action holds playback for, if it is one that does.
pub fn action_wait_frames(action: &ScenarioAction) -> (out: Option<u32>)
    ensures
        out == wait_frames_of(action@),
{
    match action {
        ScenarioAction::Sprite { wait_frames, .. } => Some(*wait_frames),
        ScenarioAction::HideSprite { wait_frames, .. } => Some(*wait_frames),
        ScenarioAction::TransformSprite { wait_frames, .. } => Some(*wait_frames),
        ScenarioAction::Wait { frames } => Some(*frames),
        _ => None,
    }
}

/// `v` lies in `lo..=hi` and equals none of the present values of `excluded`.
pub open spec fn admits(lo: int, hi: int, excluded: Seq<Option<i32>>, v: i32) -> bool {
    lo <= v <= hi && forall|j: int| 0 <= j < excluded.len() ==> excluded[j] != Some(v)
}

/// The last element of `s` that `admits` accepts.
pub open spec fn last_admitted(s: Seq<i32>, lo: int, hi: int, excluded: Seq<Option<i32>>) -> Option<
    i32,
>
    decreases s.len(),
{
    if s.len() == 0 {
        None
    } else if admits(lo, hi, excluded, s.last()) {
        Some(s.last())
    } else {
        last_admitted(s.drop_last(), lo, hi, excluded)
    }
}

/// The first element of `s` that `admits` accepts.
pub open spec fn first_admitted(s: Seq<i32>, lo: int, hi: int, excluded: Seq<Option<i32>>) -> Option<
    i32,
>
    decreases s.len(),
{
    if s.len() == 0 {
        None
    } else if admits(lo, hi, excluded, s[0]) {
        Some(s[0])
    } else {
        first_admitted(s.drop_first(), lo, hi, excluded)
    }
}

fn admitted(lo: i32, hi: i32, excluded: &Vec<Option<i32>>, v: i32) -> (out: bool)
    ensures
        out == admits(lo as int, hi as int, excluded@, v),
{
    if v < lo || v > hi {
        return false;
    }
    let mut j: usize = 0;
    while j < excluded.len()
        invariant
            j <= excluded.len(),
            forall|k: int| 0 <= k < j ==> excluded@[k] != Some(v),
        decreases excluded.len() - j,
    {
        if excluded[j] == Some(v) {
            return false;
        }
        j += 1;
    }
    true
}

/// The last value that lies in `lo..=hi` and is none of `excluded`.
pub fn find_last_admitted(values: &Vec<i32>, lo: i32, hi: i32, excluded: &Vec<Option<i32>>) -> (out:
    Option<i32>)
    ensures
        out == last_admitted(values@, lo as int, hi as int, excluded@),
{
    let mut i: usize = values.len();
    assert(values@.take(values@.len() as int) =~= values@);
    while i > 0
        invariant
            i <= values.len(),
            last_admitted(values@, lo as int, hi as int, excluded@) == last_admitted(
                values@.take(i as int),
                lo as int,
                hi as int,
                excluded@,
            ),
        decreases i,
    {
        let v = values[i - 1];
        assert(values@.take(i as int).last() == v);
        if admitted(lo, hi, excluded, v) {
            return Some(v);
        }
        assert(values@.take(i as int).drop_last() =~= values@.take(i as int - 1));
        i -= 1;
    }
    None
}

/// The first value that lies in `lo..=hi` and is none of `excluded`.
pub fn find_first_admitted(values: &Vec<i32>, lo: i32, hi: i32, excluded: &Vec<Option<i32>>) -> (out:
    Option<i32>)
    ensures
        out == first_admitted(values@, lo as int, hi as int, excluded@),
{
    let mut i: usize = 0;
    assert(values@.subrange(0, values@.len() as int) =~= values@);
    while i < values.len()
        invariant
            i <= values.len(),
            first_admitted(values@, lo as int, hi as int, excluded@) == first_admitted(
                values@.subrange(i as int, values@.len() as int),
                lo as int,
                hi as int,
                excluded@,
            ),
        decreases values.len() - i,
    {
        let v = values[i];
        assert(values@.subrange(i as int, values@.len() as int)[0] == v);
        if admitted(lo, hi, excluded, v) {
            return Some(v);
        }
        assert(values@.subrange(i as int, values@.len() as int).drop_first() =~= values@.subrange(
            i as int + 1,
            values@.len() as int,
        ));
        i += 1;
    }
    None
}

/// The last operand integer that reads as a duration in milliseconds
/// (16 to 30000).
pub open spec fn duration_millis_spec(values: Seq<BcsValue>) -> Option<i32> {
    last_admitted(ints_of(values), 16, 30000, Seq::empty())
}

/// The duration in frames of sixteen milliseconds, rounded up.
pub open spec fn duration_frames_spec(values: Seq<BcsValue>) -> Option<u32> {
    match duration_millis_spec(values) {
        Some(ms) => Some(((ms + 15) / 16) as u32),
        None => None,
    }
}

proof fn lemma_last_admitted_in_range(s: Seq<i32>, lo: int, hi: int, excluded: Seq<Option<i32>>)
    ensures
        last_admitted(s, lo, hi, excluded) matches Some(v) ==> admits(lo, hi, excluded, v),
    decreases s.len(),
{
    if s.len() > 0 && !admits(lo, hi, excluded, s.last()) {
        lemma_last_admitted_in_range(s.drop_last(), lo, hi, excluded);
    }
}

proof fn lemma_first_admitted_in_range(s: Seq<i32>, lo: int, hi: int, excluded: Seq<Option<i32>>)
    ensures
        first_admitted(s, lo, hi, excluded) matches Some(v) ==> admits(lo, hi, excluded, v),
    decreases s.len(),
{
    if s.len() > 0 && !admits(lo, hi, excluded, s[0]) {
        lemma_first_admitted_in_range(s.drop_first(), lo, hi, excluded);
    }
}

/// The last operand integer that reads as a duration in milliseconds.
pub fn duration_millis(values: &[BcsValue]) -> (out: Option<i32>)
    ensures
        out == duration_millis_spec(values@),
        out matches Some(ms) ==> 16 <= ms <= 30000,
{
    let all = ints(values);
    let none: Vec<Option<i32>> = Vec::new();
    proof {
        lemma_last_admitted_in_range(ints_of(values@), 16, 30000, none@);
        assert(none@ =~= Seq::<Option<i32>>::empty());
    }
    find_last_admitted(&all, 16, 30000, &none)
}

/// The operands' duration in frames of sixteen milliseconds, rounded up.
pub fn duration_frames(values: &[BcsValue]) -> (out: Option<u32>)
    ensures
        out == duration_frames_spec(values@),
        out matches Some(f) ==> 1 <= f <= 1875,
{
    match duration_millis(values) {
        Some(ms) => Some(((ms as u32) + 15) / 16),
        None => None,
    }
}

/// Kinds of operand string that playback looks for.
#[derive(Debug, Clone, Copy, PartialEq, Eq, Structural)]
pub enum StrKind {
    /// A resource name that is not a sound effect or music track.
    Visual,
    /// Any resource name.
    Resource,
    /// A script name.
    Script,
    /// A name that starts with `se_`.
    SoundEffect,
}

/// A resource name that is not a sound effect (`se_`) or music (`bgm`, `BGM`).
pub open spec fn visual_name_spec(t: Seq<char>) -> bool {
    resource_name_spec(t) && !starts_with(t, seq!['s', 'e', '_']) && !starts_with(
        t,
        seq!['b', 'g', 'm'],
    ) && !starts_with(t, seq!['B', 'G', 'M'])
}

/// Whether `t` is a string of kind `kind`.
pub open spec fn is_kind(kind: StrKind, t: Seq<char>) -> bool {
    match kind {
        StrKind::Visual => visual_name_spec(t),
        StrKind::Resource => resource_name_spec(t),
        StrKind::Script => script_name_spec(t),
        StrKind::SoundEffect => starts_with(t, seq!['s', 'e', '_']),
    }
}

/// The last string of `strs` of kind `kind`.
pub open spec fn last_of_kind(strs: Seq<Seq<char>>, kind: StrKind) -> Option<Seq<char>>
    decreases strs.len(),
{
    if strs.len() == 0 {
        None
    } else if is_kind(kind, strs.last()) {
        Some(strs.last())
    } else {
        last_of_kind(strs.drop_last(), kind)
    }
}

/// Whether `text` is a string of kind `kind`.
pub fn str_is_kind(kind: StrKind, text: &str) -> (out: bool)
    ensures
        out == is_kind(kind, text@),
{
    match kind {
        StrKind::Visual => {
            let v = chars_of(text);
            looks_like_resource_name(text) && !vec_starts_with(&v, &vec!['s', 'e', '_'])
                && !vec_starts_with(&v, &vec!['b', 'g', 'm']) && !vec_starts_with(
                &v,
                &vec!['B', 'G', 'M'],
            )
        },
        StrKind::Resource => looks_like_resource_name(text),
        StrKind::Script => looks_like_script_name(text),
        StrKind::SoundEffect => vec_starts_with(&chars_of(text), &vec!['s', 'e', '_']),
    }
}

/// The last operand string of kind `kind`.
pub fn last_string_of_kind(values: &[BcsValue], kind: StrKind) -> (out: Option<String>)
    ensures
        opt_chars(out) == last_of_kind(strings_of(values@), kind),
{
    let mut all = strings(values);
    let ghost strs = strings_of(values@);
    while all.len() > 0
        invariant
            strs == strings_of(values@),
            last_of_kind(strs, kind) == last_of_kind(
                all@.map_values(|s: String| s@),
                kind,
            ),
        decreases all.len(),
    {
        let ghost before = all@.map_values(|s: String| s@);
        let t = all.pop().unwrap();
        assert(before.len() > 0);
        assert(before.last() == t@);
        assert(before.drop_last() =~= all@.map_values(|s: String| s@));
        if str_is_kind(kind, t.as_str()) {
            return Some(t);
        }
    }
    assert(all@.map_values(|s: String| s@) =~= Seq::<Seq<char>>::empty());
    None
}

/// The last string of a sequence, if any.
pub open spec fn last_str(strs: Seq<Seq<char>>) -> Option<Seq<char>> {
    if strs.len() == 0 {
        None
    } else {
        Some(strs.last())
    }
}

/// The last string the operands hold.
pub fn last_string(values: &[BcsValue]) -> (out: Option<String>)
    ensures
        opt_chars(out) == last_str(strings_of(values@)),
{
    let mut all = strings(values);
    proof {
        assert(all@.map_values(|s: String| s@).len() == all@.len());
    }
    match all.pop() {
        Some(t) => {
            assert(strings_of(values@).last() == t@);
            Some(t)
        },
        None => None,
    }
}

/// The last resource name the operands hold that is neither a sound effect
/// nor music.
pub fn visual_resource_name(values: &[BcsValue]) -> (out: Option<String>)
    ensures
        opt_chars(out) == last_of_kind(strings_of(values@), StrKind::Visual),
{
    last_string_of_kind(values, StrKind::Visual)
}

/// Placement hints read from a visual command's operands.
#[derive(Debug)]
pub struct VisualHints {
    pub slot: Option<i32>,
    pub x: Option<i32>,
    pub z: Option<i32>,
    pub opacity: Option<i32>,
    pub body_layer: Option<String>,
}

/// The index of the last top-level operand that is a resource-name string.
pub open spec fn last_resource_index(values: Seq<BcsValue>) -> Option<int>
    decreases values.len(),
{
    if values.len() == 0 {
        None
    } else if (values.last() matches BcsValue::Str(t) && resource_name_spec(t@)) {
        Some(values.len() - 1)
    } else {
        last_resource_index(values.drop_last())
    }
}

/// The last element of `s` when it lies in `lo..=hi`.
pub open spec fn last_if_in(s: Seq<i32>, lo: int, hi: int) -> Option<i32> {
    if s.len() > 0 && lo <= s.last() <= hi {
        Some(s.last())
    } else {
        None
    }
}

/// The duration, in milliseconds rounded up to whole frames, that visual
/// hints set apart from positions.
pub open spec fn frame_duration_ms(values: Seq<BcsValue>) -> Option<i32> {
    match duration_frames_spec(values) {
        Some(f) => Some((f * 16) as i32),
        None => None,
    }
}

/// The slot a visual command names: the integer just before the resource
/// name, else the last integer after it, when it lies in `0..=99`; without
/// a resource name, the last integer in `0..=99`.
pub open spec fn visual_slot_spec(values: Seq<BcsValue>) -> Option<i32> {
    match last_resource_index(values) {
        Some(fi) => match last_if_in(ints_of(values.take(fi)), 0, 99) {
            Some(s) => Some(s),
            None => last_if_in(ints_of(values.skip(fi + 1)), 0, 99),
        },
        None => last_admitted(ints_of(values), 0, 99, Seq::empty()),
    }
}

/// The horizontal position: the first integer after the resource name in
/// `-1280..=1280` that is not the slot, the duration, 0, 1 or 256.
pub open spec fn visual_x_spec(values: Seq<BcsValue>) -> Option<i32> {
    match last_resource_index(values) {
        Some(fi) => first_admitted(
            ints_of(values.skip(fi + 1)),
            -1280,
            1280,
            seq![frame_duration_ms(values), visual_slot_spec(values), Some(0i32), Some(1i32), Some(256i32)],
        ),
        None => None,
    }
}

/// The depth: the last integer after the resource name in `2..=899` that is
/// not the slot, the duration or 256; without a resource name, the last
/// integer in `1..=160`.
pub open spec fn visual_z_spec(values: Seq<BcsValue>) -> Option<i32> {
    match last_resource_index(values) {
        Some(fi) => last_admitted(
            ints_of(values.skip(fi + 1)),
            2,
            899,
            seq![visual_slot_spec(values), frame_duration_ms(values), Some(256i32)],
        ),
        None => last_admitted(ints_of(values), 1, 160, Seq::empty()),
    }
}

/// The integers of the operands from `lo` up to `hi`.
pub fn ints_between(values: &[BcsValue], lo: usize, hi: usize) -> (out: Vec<i32>)
    requires
        lo <= hi <= values@.len(),
    ensures
        out@ == ints_of(values@.subrange(lo as int, hi as int)),
{
    let mut out: Vec<i32> = Vec::new();
    let mut i: usize = lo;
    assert(values@.subrange(lo as int, lo as int) =~= Seq::<BcsValue>::empty());
    while i < hi
        invariant
            lo <= i <= hi <= values@.len(),
            out@ == ints_of(values@.subrange(lo as int, i as int)),
        decreases hi - i,
    {
        assert(values@.subrange(lo as int, i as int + 1).drop_last() =~= values@.subrange(
            lo as int,
            i as int,
        ));
        match value_i32(&values[i]) {
            Some(x) => out.push(x),
            None => {},
        }
        i += 1;
    }
    out
}

fn last_resource_position(values: &[BcsValue]) -> (out: Option<usize>)
    ensures
        match out {
            Some(i) => last_resource_index(values@) == Some(i as int) && i < values@.len(),
            None => last_resource_index(values@) is None,
        },
{
    let mut i: usize = values.len();
    assert(values@.take(values@.len() as int) =~= values@);
    while i > 0
        invariant
            i <= values@.len(),
            last_resource_index(values@) == last_resource_index(values@.take(i as int)),
        decreases i,
    {
        let hit = match &values[i - 1] {
            BcsValue::Str(t) => looks_like_resource_name(t.as_str()),
            _ => false,
        };
        assert(values@.take(i as int).last() == values@[i - 1]);
        if hit {
            return Some(i - 1);
        }
        assert(values@.take(i as int).drop_last() =~= values@.take(i as int - 1));
        i -= 1;
    }
    None
}

fn last_in(values: &Vec<i32>, lo: i32, hi: i32) -> (out: Option<i32>)
    ensures
        out == last_if_in(values@, lo as int, hi as int),
{
    if values.len() > 0 && lo <= values[values.len() - 1] && values[values.len() - 1] <= hi {
        Some(values[values.len() - 1])
    } else {
        None
    }
}

/// Placement hints read from a visual command's operands (see
/// [`visual_slot_spec`], [`visual_x_spec`], [`visual_z_spec`]).
pub fn visual_hints(values: &[BcsValue]) -> (out: VisualHints)
    ensures
        out.slot == visual_slot_spec(values@),
        out.x == visual_x_spec(values@),
        out.z == visual_z_spec(values@),
        out.opacity is None,
        out.body_layer is None,
{
    let none: Vec<Option<i32>> = Vec::new();
    proof {
        assert(none@ =~= Seq::<Option<i32>>::empty());
    }
    match last_resource_position(values) {
        Some(fi) => {
            assert(fi < values.len());
            let before = ints_between(values, 0, fi);
            let after = ints_between(values, fi + 1, values.len());
            assert(values@.subrange(0, fi as int) =~= values@.take(fi as int));
            assert(values@.subrange(fi as int + 1, values@.len() as int) =~= values@.skip(
                fi as int + 1,
            ));
            let duration: Option<i32> = match duration_frames(values) {
                Some(f) => Some((f * 16) as i32),
                None => None,
            };
            let slot = match last_in(&before, 0, 99) {
                Some(s) => Some(s),
                None => last_in(&after, 0, 99),
            };
            let z_excluded: Vec<Option<i32>> = vec![slot, duration, Some(256i32)];
            let x_excluded: Vec<Option<i32>> = vec![duration, slot, Some(0i32), Some(1i32), Some(256i32)];
            assert(z_excluded@ =~= seq![slot, duration, Some(256i32)]);
            assert(x_excluded@ =~= seq![duration, slot, Some(0i32), Some(1i32), Some(256i32)]);
            let z = find_last_admitted(&after, 2, 899, &z_excluded);
            let x = find_first_admitted(&after, -1280, 1280, &x_excluded);
            VisualHints { slot, x, z, opacity: None, body_layer: None }
        },
        None => {
            let all = ints(values);
            let slot = find_last_admitted(&all, 0, 99, &none);
            let z = find_last_admitted(&all, 1, 160, &none);
            VisualHints { slot, x: None, z, opacity: None, body_layer: None }
        },
    }
}

/// Hints for a scene draw: visual hints with no slot or position, drawn at
/// depth 10.
pub fn draw_scene_hints(values: &[BcsValue]) -> (out: VisualHints)
    ensures
        out.slot is None,
        out.x is None,
        out.z == Some(10i32),
        out.opacity is None,
        out.body_layer is None,
{
    let mut hints = visual_hints(values);
    hints.slot = None;
    hints.x = None;
    hints.z = Some(10);
    hints.opacity = None;
    hints
}

/// Hints for moving or fading a sprite that is already shown.
#[derive(Debug, Clone, Copy)]
pub struct TransformHints {
    pub slot: i32,
    pub wait_frames: u32,
    pub x: Option<i32>,
    pub y: Option<i32>,
    pub opacity: Option<i32>,
}

/// The raw opacity of a transform: the last integer in `2..=256` that is
/// neither the slot (the first integer) nor the duration.
pub open spec fn transform_opacity_spec(values: Seq<BcsValue>) -> Option<i32> {
    let all = ints_of(values);
    last_admitted(all, 2, 256, seq![Some(all[0]), duration_millis_spec(values)])
}

/// The transform's horizontal position: the first integer after the slot in
/// `-1280..=1280` that is not the duration, the opacity, -1, 0, 1 or 256.
pub open spec fn transform_x_spec(values: Seq<BcsValue>) -> Option<i32> {
    let all = ints_of(values);
    first_admitted(
        all.drop_first(),
        -1280,
        1280,
        seq![duration_millis_spec(values), transform_opacity_spec(values), Some(-2147483647i32), Some(-1i32), Some(0i32), Some(1i32), Some(256i32)],
    )
}

/// Transform hints, when the first operand integer is a slot in `0..=99`.
pub open spec fn transform_applies(values: Seq<BcsValue>) -> bool {
    let all = ints_of(values);
    all.len() > 0 && 0 <= all[0] <= 99
}

/// Hints for moving or fading a sprite: present exactly when the first
/// operand integer is a slot in `0..=99`.
pub fn transform_hints(values: &[BcsValue]) -> (out: Option<TransformHints>)
    ensures
        out is Some <==> transform_applies(values@),
        out matches Some(h) ==> {
            &&& h.slot == ints_of(values@)[0]
            &&& h.wait_frames == match duration_frames_spec(values@) {
                Some(f) => f,
                None => 1,
            }
            &&& h.x == transform_x_spec(values@)
            &&& h.y is None
            &&& h.opacity == transform_opacity_spec(values@)
        },
{
    let all = ints(values);
    if all.len() == 0 || all[0] < 0 || all[0] > 99 {
        return None;
    }
    let slot = all[0];
    let wait_frames = match duration_frames(values) {
        Some(f) => f,
        None => 1,
    };
    let duration_ms = duration_millis(values);
    let op_excluded: Vec<Option<i32>> = vec![Some(slot), duration_ms];
    assert(op_excluded@ =~= seq![Some(slot), duration_ms]);
    let opacity = find_last_admitted(&all, 2, 256, &op_excluded);
    let mut rest: Vec<i32> = Vec::new();
    let mut i: usize = 1;
    assert(all@.subrange(1, 1) =~= Seq::<i32>::empty());
    while i < all.len()
        invariant
            1 <= i <= all@.len(),
            rest@ == all@.subrange(1, i as int),
        decreases all.len() - i,
    {
        rest.push(all[i]);
        assert(all@.subrange(1, i as int + 1) =~= all@.subrange(1, i as int).push(all@[i as int]));
        i += 1;
    }
    assert(rest@ =~= all@.drop_first());
    let x_excluded: Vec<Option<i32>> = vec![
        duration_ms,
        opacity,
        Some(-2147483647i32),
        Some(-1i32),
        Some(0i32),
        Some(1i32),
        Some(256i32),
    ];
    assert(x_excluded@ =~= seq![duration_ms, opacity, Some(-2147483647i32), Some(-1i32), Some(0i32), Some(1i32), Some(256i32)]);
    let x = find_first_admitted(&rest, -1280, 1280, &x_excluded);
    Some(TransformHints { slot, wait_frames, x, y: None, opacity })
}

} // verus!
