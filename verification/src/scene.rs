use vstd::prelude::*;
use crate::text::{
    chars_of, contains_seq, lower_seq, lower_vec, starts_with, vec_contains, vec_eq,
    vec_starts_with,
};

verus! {

/// The role a scenario sprite plays in the scene, derived from its resource name.
#[derive(Debug, Clone, Copy, PartialEq, Eq, Structural)]
pub enum ScenarioSpriteClass {
    Modal,
    Background,
    Event,
    Character,
    Effect,
    FadePlate,
    Logo,
    Ui,
    Other,
}

/// Where a scenario sprite goes; `x` and `y` are whole pixels when present.
#[derive(Debug, Clone, Copy, PartialEq, Eq, Structural)]
pub struct ScenarioSpritePlacement {
    pub class: ScenarioSpriteClass,
    pub layer_id: i32,
    pub z: i32,
    pub x: Option<i32>,
    pub y: Option<i32>,
    pub hit_id: i32,
    pub blocks_input: bool,
    pub track_scene_layer: bool,
}

pub const SCENARIO_OVERLAY_LAYER_ID: i32 = -50_000;
pub const SCENARIO_OVERLAY_HIT_ID: i32 = 50_000;
pub const BACKGROUND_LAYER_ID: i32 = -60_010;
pub const EVENT_LAYER_ID: i32 = -60_020;
pub const LOGO_LAYER_ID: i32 = -60_030;
pub const UI_LAYER_ID: i32 = -60_040;
pub const EFFECT_LAYER_BASE: i32 = -60_200;
pub const FADE_PLATE_LAYER_ID: i32 = -60_290;
pub const CHARACTER_LAYER_BASE: i32 = -60_400;
pub const OTHER_LAYER_BASE: i32 = -60_700;

pub open spec fn is_digit_or_lower_letter(c: char) -> bool {
    ('0' <= c && c <= '9') || ('a' <= c && c <= 'z')
}

/// Character resources: one of the size prefixes, or a name that starts with
/// `c`, `h`, `m` or `f` and holds an ASCII digit or lower-case letter.
pub open spec fn character_resource_spec(lower: Seq<char>) -> bool {
    ||| starts_with(lower, seq!['l', 'l', '_'])
    ||| starts_with(lower, seq!['l', '_'])
    ||| starts_with(lower, seq!['m', '_'])
    ||| starts_with(lower, seq!['s', '_'])
    ||| starts_with(lower, seq!['l', 'm', '_'])
    ||| starts_with(lower, seq!['m', 'l', '_'])
    ||| starts_with(lower, seq!['m', 'm', '_'])
    ||| starts_with(lower, seq!['s', 'l', '_'])
    ||| starts_with(lower, seq!['s', 'm', '_'])
    ||| (lower.len() > 0 && (lower[0] == 'c' || lower[0] == 'h' || lower[0] == 'm' || lower[0]
        == 'f') && exists|i: int| 0 <= i < lower.len() && is_digit_or_lower_letter(lower[i]))
}

/// The class of a sprite named `lower` (already ASCII lower-cased).
pub open spec fn sprite_class_spec(lower: Seq<char>) -> ScenarioSpriteClass {
    if starts_with(lower, seq!['w', 'a', 'r', 'n']) {
        ScenarioSpriteClass::Modal
    } else if lower == seq!['b', 'g', '_', 'b', 'l', 'a', 'c', 'k'] || lower == seq![
        'b',
        'g',
        '_',
        'w',
        'h',
        'i',
        't',
        'e',
    ] {
        ScenarioSpriteClass::FadePlate
    } else if starts_with(lower, seq!['b', 'g']) {
        ScenarioSpriteClass::Background
    } else if starts_with(lower, seq!['e', 'v']) {
        ScenarioSpriteClass::Event
    } else if starts_with(lower, seq!['e', 'f']) {
        ScenarioSpriteClass::Effect
    } else if starts_with(lower, seq!['b', 'r', 'a', 'n', 'd', 'l', 'o', 'g', 'o'])
        || contains_seq(lower, seq!['l', 'o', 'g', 'o']) {
        ScenarioSpriteClass::Logo
    } else if starts_with(lower, seq!['m', 's', 'g']) || starts_with(lower, seq!['s', 'y', 's']) {
        ScenarioSpriteClass::Ui
    } else if character_resource_spec(lower) {
        ScenarioSpriteClass::Character
    } else {
        ScenarioSpriteClass::Other
    }
}

fn character_resource_chars(lower: &Vec<char>) -> (out: bool)
    ensures
        out == character_resource_spec(lower@),
{
    let prefixes: Vec<Vec<char>> = vec![
        vec!['l', 'l', '_'],
        vec!['l', '_'],
        vec!['m', '_'],
        vec!['s', '_'],
        vec!['l', 'm', '_'],
        vec!['m', 'l', '_'],
        vec!['m', 'm', '_'],
        vec!['s', 'l', '_'],
        vec!['s', 'm', '_'],
    ];
    let r0 = vec_starts_with(lower, &prefixes[0]);
    let r1 = vec_starts_with(lower, &prefixes[1]);
    let r2 = vec_starts_with(lower, &prefixes[2]);
    let r3 = vec_starts_with(lower, &prefixes[3]);
    let r4 = vec_starts_with(lower, &prefixes[4]);
    let r5 = vec_starts_with(lower, &prefixes[5]);
    let r6 = vec_starts_with(lower, &prefixes[6]);
    let r7 = vec_starts_with(lower, &prefixes[7]);
    let r8 = vec_starts_with(lower, &prefixes[8]);
    if r0 || r1 || r2 || r3 || r4 || r5 || r6 || r7 || r8 {
        return true;
    }
    if lower.len() == 0 {
        return false;
    }
    let first = lower[0];
    // The first character, being a lower-case letter, is itself a witness.
    let r = first == 'c' || first == 'h' || first == 'm' || first == 'f';
    proof {
        if r {
            assert(is_digit_or_lower_letter(lower@[0]));
        }
    }
    r
}

/// Whether an ASCII lower-cased resource name looks like a character sprite.
pub fn looks_like_character_resource(lower: &str) -> (out: bool)
    ensures
        out == character_resource_spec(lower@),
{
    character_resource_chars(&chars_of(lower))
}

/// The opacity, in hundredths, that a sprite of a class settles at: soft
/// effects (`ef_soft…`, any case) 28, sepia effects (`ef_sepia…`) 42,
/// other effects 50, everything else fully opaque.
pub open spec fn sprite_target_opacity_spec(lower: Seq<char>, class: ScenarioSpriteClass) -> u32 {
    match class {
        ScenarioSpriteClass::Effect => if starts_with(lower, "ef_soft"@) {
            28
        } else if starts_with(lower, "ef_sepia"@) {
            42
        } else {
            50
        },
        _ => 100,
    }
}

/// The opacity, in hundredths, that a scenario sprite settles at (see
/// [`sprite_target_opacity_spec`]).
pub fn sprite_target_opacity(name: &str, class: ScenarioSpriteClass) -> (percent: u32)
    ensures
        percent == sprite_target_opacity_spec(lower_seq(name@), class),
{
    match class {
        ScenarioSpriteClass::Effect => {
            let lower = lower_vec(&chars_of(name));
            if vec_starts_with(&lower, &chars_of("ef_soft")) {
                28
            } else if vec_starts_with(&lower, &chars_of("ef_sepia")) {
                42
            } else {
                50
            }
        },
        _ => 100,
    }
}

/// Classifies a scenario sprite by its resource name, ASCII case-insensitively.
pub fn classify_scenario_sprite(name: &str) -> (class: ScenarioSpriteClass)
    ensures
        class == sprite_class_spec(lower_seq(name@)),
{
    let lower = lower_vec(&chars_of(name));
    classify_lower(&lower)
}

fn classify_lower(lower: &Vec<char>) -> (class: ScenarioSpriteClass)
    ensures
        class == sprite_class_spec(lower@),
{
    if vec_starts_with(lower, &vec!['w', 'a', 'r', 'n']) {
        ScenarioSpriteClass::Modal
    } else if vec_eq(lower, &vec!['b', 'g', '_', 'b', 'l', 'a', 'c', 'k']) || vec_eq(
        lower,
        &vec!['b', 'g', '_', 'w', 'h', 'i', 't', 'e'],
    ) {
        ScenarioSpriteClass::FadePlate
    } else if vec_starts_with(lower, &vec!['b', 'g']) {
        ScenarioSpriteClass::Background
    } else if vec_starts_with(lower, &vec!['e', 'v']) {
        ScenarioSpriteClass::Event
    } else if vec_starts_with(lower, &vec!['e', 'f']) {
        ScenarioSpriteClass::Effect
    } else if vec_starts_with(lower, &vec!['b', 'r', 'a', 'n', 'd', 'l', 'o', 'g', 'o'])
        || vec_contains(lower, &vec!['l', 'o', 'g', 'o']) {
        ScenarioSpriteClass::Logo
    } else if vec_starts_with(lower, &vec!['m', 's', 'g']) || vec_starts_with(
        lower,
        &vec!['s', 'y', 's'],
    ) {
        ScenarioSpriteClass::Ui
    } else if character_resource_chars(lower) {
        ScenarioSpriteClass::Character
    } else {
        ScenarioSpriteClass::Other
    }
}

pub open spec fn clamp(v: int, lo: int, hi: int) -> int {
    if v < lo {
        lo
    } else if v > hi {
        hi
    } else {
        v
    }
}

fn clamp_i32(v: i32, lo: i32, hi: i32) -> (out: i32)
    requires
        lo <= hi,
    ensures
        out == clamp(v as int, lo as int, hi as int),
{
    if v < lo {
        lo
    } else if v > hi {
        hi
    } else {
        v
    }
}

/// The background layer id that a scenario slot selects.
pub open spec fn background_layer_for_slot_spec(slot: int) -> int {
    BACKGROUND_LAYER_ID - slot
}

/// The background layer id of a slot: the background base less the slot
/// (which must not overflow).
pub fn background_layer_id_for_slot(slot: i32) -> (id: i32)
    requires
        i32::MIN <= BACKGROUND_LAYER_ID - slot <= i32::MAX,
    ensures
        id == background_layer_for_slot_spec(slot as int),
{
    BACKGROUND_LAYER_ID - slot
}

/// Background, character and other layer ids that belong to one slot.
pub fn scenario_layer_ids_for_slot(slot: i32) -> (ids: [i32; 3])
    requires
        i32::MIN - OTHER_LAYER_BASE <= -slot <= i32::MAX - BACKGROUND_LAYER_ID,
    ensures
        ids@ == seq![
            (BACKGROUND_LAYER_ID - slot) as i32,
            (CHARACTER_LAYER_BASE - slot) as i32,
            (OTHER_LAYER_BASE - slot) as i32,
        ],
{
    let ids = [BACKGROUND_LAYER_ID - slot, CHARACTER_LAYER_BASE - slot, OTHER_LAYER_BASE - slot];
    assert(ids@ =~= seq![
        (BACKGROUND_LAYER_ID - slot) as i32,
        (CHARACTER_LAYER_BASE - slot) as i32,
        (OTHER_LAYER_BASE - slot) as i32,
    ]);
    ids
}

/// Classes that fill the viewport.
pub fn is_viewport_sprite_class(class: ScenarioSpriteClass) -> (out: bool)
    ensures
        out == (class == ScenarioSpriteClass::Background || class == ScenarioSpriteClass::Event
            || class == ScenarioSpriteClass::FadePlate),
{
    match class {
        ScenarioSpriteClass::Background | ScenarioSpriteClass::Event
        | ScenarioSpriteClass::FadePlate => true,
        _ => false,
    }
}

/// Whether `layer_id` is one of the hundred slot background layers.
pub fn is_background_layer_id(layer_id: i32) -> (out: bool)
    ensures
        out == (BACKGROUND_LAYER_ID - 99 <= layer_id <= BACKGROUND_LAYER_ID),
{
    BACKGROUND_LAYER_ID - 99 <= layer_id && layer_id <= BACKGROUND_LAYER_ID
}

/// Frames a sprite fade lasts: never fewer than one.
pub fn sprite_fade_frames(class: ScenarioSpriteClass, wait_frames: u32) -> (frames: u32)
    ensures
        frames == if wait_frames == 0 { 1 } else { wait_frames },
{
    // Every class, UI and other sprites included, waits at least one frame.
    if wait_frames > 1 {
        wait_frames
    } else {
        1
    }
}

/// The slot used for sequence-placed sprites.
pub open spec fn sequence_slot_spec(sequence: u32, slot: Option<i32>) -> int {
    match slot {
        Some(s) if 0 <= s <= 99 => s as int,
        _ => (sequence % 96) as int,
    }
}

/// Full placement rule of a sprite, given the class its name selects.
pub open spec fn placement_spec(
    class: ScenarioSpriteClass,
    lower: Seq<char>,
    sequence: u32,
    slot: Option<i32>,
    x: Option<i32>,
    z: Option<i32>,
) -> ScenarioSpritePlacement {
    let seq_slot = sequence_slot_spec(sequence, slot);
    let zero = Some(0i32);
    match class {
        ScenarioSpriteClass::Modal => ScenarioSpritePlacement {
            class,
            layer_id: SCENARIO_OVERLAY_LAYER_ID,
            z: 50_000,
            x: None,
            y: None,
            hit_id: SCENARIO_OVERLAY_HIT_ID,
            blocks_input: true,
            track_scene_layer: false,
        },
        ScenarioSpriteClass::Background => ScenarioSpritePlacement {
            class,
            layer_id: match slot {
                Some(s) if 0 <= s <= 99 => background_layer_for_slot_spec(s as int) as i32,
                _ => BACKGROUND_LAYER_ID,
            },
            z: clamp(
                match z {
                    Some(v) => v as int,
                    None => 10,
                },
                0,
                899,
            ) as i32,
            x: zero,
            y: zero,
            hit_id: 0,
            blocks_input: false,
            track_scene_layer: true,
        },
        ScenarioSpriteClass::Event => ScenarioSpritePlacement {
            class,
            layer_id: EVENT_LAYER_ID,
            z: 50,
            x: zero,
            y: zero,
            hit_id: 0,
            blocks_input: false,
            track_scene_layer: true,
        },
        ScenarioSpriteClass::Character => ScenarioSpritePlacement {
            class,
            layer_id: (CHARACTER_LAYER_BASE - seq_slot) as i32,
            z: clamp(
                match z {
                    Some(v) => v as int,
                    None => 70 + seq_slot,
                },
                40,
                899,
            ) as i32,
            x,
            y: None,
            hit_id: 0,
            blocks_input: false,
            track_scene_layer: true,
        },
        ScenarioSpriteClass::Effect => {
            let (layer_id, default_z) = if starts_with(
                lower,
                seq!['e', 'f', '_', 's', 'o', 'f', 't'],
            ) {
                (EFFECT_LAYER_BASE as int, 96int)
            } else if starts_with(lower, seq!['e', 'f', '_', 's', 'e', 'p', 'i', 'a']) {
                (EFFECT_LAYER_BASE - 1, 95int)
            } else {
                (EFFECT_LAYER_BASE - seq_slot, 90 + seq_slot)
            };
            ScenarioSpritePlacement {
                class,
                layer_id: layer_id as i32,
                z: clamp(
                    match z {
                        Some(v) => v as int,
                        None => default_z,
                    },
                    0,
                    899,
                ) as i32,
                x: zero,
                y: zero,
                hit_id: 0,
                blocks_input: false,
                track_scene_layer: true,
            }
        },
        ScenarioSpriteClass::FadePlate => ScenarioSpritePlacement {
            class,
            layer_id: FADE_PLATE_LAYER_ID,
            z: clamp(
                match z {
                    Some(v) => v as int,
                    None => 900,
                },
                0,
                999,
            ) as i32,
            x: zero,
            y: zero,
            hit_id: 0,
            blocks_input: false,
            track_scene_layer: true,
        },
        ScenarioSpriteClass::Logo => ScenarioSpritePlacement {
            class,
            layer_id: LOGO_LAYER_ID,
            z: 60,
            x: None,
            y: None,
            hit_id: 0,
            blocks_input: false,
            track_scene_layer: true,
        },
        ScenarioSpriteClass::Ui => ScenarioSpritePlacement {
            class,
            layer_id: UI_LAYER_ID,
            z: 950,
            x: None,
            y: None,
            hit_id: 0,
            blocks_input: false,
            track_scene_layer: true,
        },
        ScenarioSpriteClass::Other => ScenarioSpritePlacement {
            class,
            layer_id: (OTHER_LAYER_BASE - seq_slot) as i32,
            z: clamp(
                match z {
                    Some(v) => v as int,
                    None => 65 + seq_slot,
                },
                20,
                899,
            ) as i32,
            x,
            y: None,
            hit_id: 0,
            blocks_input: false,
            track_scene_layer: true,
        },
    }
}

fn z_or(z: Option<i32>, default: i32, lo: i32, hi: i32) -> (out: i32)
    requires
        lo <= hi,
    ensures
        out == clamp(
            match z {
                Some(v) => v as int,
                None => default as int,
            },
            lo as int,
            hi as int,
        ),
{
    match z {
        Some(v) => clamp_i32(v, lo, hi),
        None => clamp_i32(default, lo, hi),
    }
}

/// Places a scenario sprite, honouring the optional slot, x and z hints.
pub fn place_scenario_sprite_with_hints(
    name: &str,
    sequence: u32,
    slot: Option<i32>,
    x: Option<i32>,
    z: Option<i32>,
) -> (placement: ScenarioSpritePlacement)
    ensures
        placement == placement_spec(
            sprite_class_spec(lower_seq(name@)),
            lower_seq(name@),
            sequence,
            slot,
            x,
            z,
        ),
{
    let lower = lower_vec(&chars_of(name));
    let class = classify_lower(&lower);
    let sequence_slot: i32 = match slot {
        Some(s) if 0 <= s && s <= 99 => s,
        _ => (sequence % 96) as i32,
    };
    match class {
        ScenarioSpriteClass::Modal => ScenarioSpritePlacement {
            class,
            layer_id: SCENARIO_OVERLAY_LAYER_ID,
            z: 50_000,
            x: None,
            y: None,
            hit_id: SCENARIO_OVERLAY_HIT_ID,
            blocks_input: true,
            track_scene_layer: false,
        },
        ScenarioSpriteClass::Background => ScenarioSpritePlacement {
            class,
            layer_id: match slot {
                Some(s) if 0 <= s && s <= 99 => background_layer_id_for_slot(s),
                _ => BACKGROUND_LAYER_ID,
            },
            z: z_or(z, 10, 0, 899),
            x: Some(0),
            y: Some(0),
            hit_id: 0,
            blocks_input: false,
            track_scene_layer: true,
        },
        ScenarioSpriteClass::Event => ScenarioSpritePlacement {
            class,
            layer_id: EVENT_LAYER_ID,
            z: 50,
            x: Some(0),
            y: Some(0),
            hit_id: 0,
            blocks_input: false,
            track_scene_layer: true,
        },
        ScenarioSpriteClass::Character => ScenarioSpritePlacement {
            class,
            layer_id: CHARACTER_LAYER_BASE - sequence_slot,
            z: z_or(z, 70 + sequence_slot, 40, 899),
            x,
            y: None,
            hit_id: 0,
            blocks_input: false,
            track_scene_layer: true,
        },
        ScenarioSpriteClass::Effect => {
            let (layer_id, default_z) = if vec_starts_with(
                &lower,
                &vec!['e', 'f', '_', 's', 'o', 'f', 't'],
            ) {
                (EFFECT_LAYER_BASE, 96)
            } else if vec_starts_with(&lower, &vec!['e', 'f', '_', 's', 'e', 'p', 'i', 'a']) {
                (EFFECT_LAYER_BASE - 1, 95)
            } else {
                (EFFECT_LAYER_BASE - sequence_slot, 90 + sequence_slot)
            };
            ScenarioSpritePlacement {
                class,
                layer_id,
                z: z_or(z, default_z, 0, 899),
                x: Some(0),
                y: Some(0),
                hit_id: 0,
                blocks_input: false,
                track_scene_layer: true,
            }
        },
        ScenarioSpriteClass::FadePlate => ScenarioSpritePlacement {
            class,
            layer_id: FADE_PLATE_LAYER_ID,
            z: z_or(z, 900, 0, 999),
            x: Some(0),
            y: Some(0),
            hit_id: 0,
            blocks_input: false,
            track_scene_layer: true,
        },
        ScenarioSpriteClass::Logo => ScenarioSpritePlacement {
            class,
            layer_id: LOGO_LAYER_ID,
            z: 60,
            x: None,
            y: None,
            hit_id: 0,
            blocks_input: false,
            track_scene_layer: true,
        },
        ScenarioSpriteClass::Ui => ScenarioSpritePlacement {
            class,
            layer_id: UI_LAYER_ID,
            z: 950,
            x: None,
            y: None,
            hit_id: 0,
            blocks_input: false,
            track_scene_layer: true,
        },
        ScenarioSpriteClass::Other => ScenarioSpritePlacement {
            class,
            layer_id: OTHER_LAYER_BASE - sequence_slot,
            z: z_or(z, 65 + sequence_slot, 20, 899),
            x,
            y: None,
            hit_id: 0,
            blocks_input: false,
            track_scene_layer: true,
        },
    }
}

/// Places a scenario sprite with no hints.
pub fn place_scenario_sprite(name: &str, sequence: u32) -> (placement: ScenarioSpritePlacement)
    ensures
        placement == placement_spec(
            sprite_class_spec(lower_seq(name@)),
            lower_seq(name@),
            sequence,
            None,
            None,
            None,
        ),
{
    place_scenario_sprite_with_hints(name, sequence, None, None, None)
}

proof fn lemma_prefix_chars(s: Seq<char>, p: Seq<char>)
    requires
        starts_with(s, p),
    ensures
        forall|i: int| 0 <= i < p.len() ==> s[i] == p[i],
{
    assert forall|i: int| 0 <= i < p.len() implies s[i] == p[i] by {
        assert(s.take(p.len() as int)[i] == s[i]);
    }
}

/// A name that begins with one of the size prefixes `ll_`, `l_`, `m_`,
/// `s_`, `lm_`, `ml_`, `mm_`, `sl_` or `sm_` is a character resource, and
/// its sprite is classified as a character unless the name holds `logo`.
pub proof fn law_size_prefixed_names_are_characters(lower: Seq<char>, prefix: Seq<char>)
    requires
        prefix == seq!['l', 'l', '_'] || prefix == seq!['l', '_'] || prefix == seq!['m', '_'] || prefix
            == seq!['s', '_'] || prefix == seq!['l', 'm', '_'] || prefix == seq!['m', 'l', '_'] || prefix
            == seq!['m', 'm', '_'] || prefix == seq!['s', 'l', '_'] || prefix == seq!['s', 'm', '_'],
        prefix.len() <= lower.len(),
        forall|i: int| 0 <= i < prefix.len() ==> lower[i] == prefix[i],
    ensures
        character_resource_spec(lower),
        !contains_seq(lower, seq!['l', 'o', 'g', 'o']) ==> sprite_class_spec(lower)
            == ScenarioSpriteClass::Character,
{
    assert(lower.take(prefix.len() as int) =~= prefix);
    assert(starts_with(lower, prefix));
    let c0 = lower[0];
    let c1 = lower[1];
    assert(c0 == prefix[0] && c1 == prefix[1]);
    let rules = seq![
        seq!['w', 'a', 'r', 'n'],
        seq!['b', 'g'],
        seq!['e', 'v'],
        seq!['e', 'f'],
        seq!['b', 'r', 'a', 'n', 'd', 'l', 'o', 'g', 'o'],
        seq!['m', 's', 'g'],
        seq!['s', 'y', 's'],
    ];
    assert forall|j: int| 0 <= j < rules.len() implies !starts_with(lower, #[trigger] rules[j]) by {
        if starts_with(lower, rules[j]) {
            lemma_prefix_chars(lower, rules[j]);
            assert(lower[0] == rules[j][0]);
            assert(lower[1] == rules[j][1]);
        }
    }
    assert(!starts_with(lower, rules[0]));
    assert(!starts_with(lower, rules[1]));
    assert(!starts_with(lower, rules[2]));
    assert(!starts_with(lower, rules[3]));
    assert(!starts_with(lower, rules[4]));
    assert(!starts_with(lower, rules[5]));
    assert(!starts_with(lower, rules[6]));
    assert(lower != seq!['b', 'g', '_', 'b', 'l', 'a', 'c', 'k']);
    assert(lower != seq!['b', 'g', '_', 'w', 'h', 'i', 't', 'e']);
}

} // verus!
