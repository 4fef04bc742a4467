use vstd::prelude::*;
use std::collections::{HashMap, VecDeque};
use crate::runtime::RuntimeTraceApi;
use crate::native_call::{
    NativeValue,
    int_at_depth,
    pop_any_spec,
    pop_any_value,
    pop_int_spec,
    pop_int_value,
    pop_str_spec,
    pop_string_value,
};
use crate::text::{
    all_digits, chars_of, decimal, digits_value, digits_value_upto, is_digit, lower_seq, lower_vec,
    starts_with, string_of, trim_seq, u32_decimal, vec_skip, vec_trim,
};

verus! {

/// An audio resource by archive and file name; the host holds its bytes.
#[derive(Debug, Clone)]
pub struct AudioAsset {
    pub archive: String,
    pub file: String,
}

impl AudioAsset {
    /// A copy of the asset.
    pub fn duplicate(&self) -> (r: Self)
        ensures
            r == *self,
    {
        AudioAsset { archive: self.archive.clone(), file: self.file.clone() }
    }
}

/// A copy of an optional asset.
pub fn duplicate_asset(a: &Option<AudioAsset>) -> (r: Option<AudioAsset>)
    ensures
        r == *a,
{
    match a {
        Some(x) => Some(x.duplicate()),
        None => None,
    }
}

/// A resident sound buffer. Gain and rate are 16.16 fixed point; `panning`
/// is the native pan value, or `None` for the centred default.
#[derive(Debug, Clone)]
pub struct SoundSlot {
    pub asset: AudioAsset,
    pub loop_asset: Option<AudioAsset>,
    pub looped: bool,
    pub decode_gain_fixed: i32,
    pub playback_rate_fixed: i32,
    pub panning: Option<i32>,
    pub native_start_parameter: i32,
    pub needs_restart: bool,
}

impl SoundSlot {
    /// A copy of the slot.
    pub fn duplicate(&self) -> (r: Self)
        ensures
            r == *self,
    {
        SoundSlot {
            asset: self.asset.duplicate(),
            loop_asset: duplicate_asset(&self.loop_asset),
            looped: self.looped,
            decode_gain_fixed: self.decode_gain_fixed,
            playback_rate_fixed: self.playback_rate_fixed,
            panning: self.panning,
            native_start_parameter: self.native_start_parameter,
            needs_restart: self.needs_restart,
        }
    }
}

/// Requests for the audio backend. `volume` is a gain in 1/128 steps;
/// `duration` is the native fade duration; `panning` as in [`SoundSlot`].
#[derive(Debug, Clone)]
pub enum AudioCommand {
    Play {
        asset: AudioAsset,
        loop_asset: Option<AudioAsset>,
        channel: i32,
        looped: bool,
        volume: u32,
        decode_gain_fixed: i32,
        playback_rate_fixed: i32,
        panning: Option<i32>,
        restart: bool,
    },
    Stop { channel: i32 },
    Pause { channel: i32, paused: bool },
    SetVolume { channel: i32, volume: u32, duration: i32 },
    SetPanning { channel: i32, panning: Option<i32> },
}

/// Requests for the playback clocks the host keeps per channel.
#[derive(Debug, Clone, Copy, PartialEq, Eq, Structural)]
pub enum ClockRequest {
    StartBgm { channel: i32, playback_rate_fixed: i32 },
    PauseBgm { channel: i32, paused: bool },
    StartSound { channel: i32, playback_rate_fixed: i32 },
    StopSound { channel: i32 },
}

/// The virtual CD-audio device: open flag, public MCI mode (2 playing,
/// 3 stopped), the selected track, the notify option, and the tracks found.
#[derive(Debug)]
pub struct NativeCdAudioState {
    pub opened: bool,
    pub mode: i32,
    pub current_track: Option<u8>,
    pub notify_requested: bool,
    pub tracks: HashMap<u8, AudioAsset>,
}

/// The abstract CD-audio device.
pub struct CdModel {
    pub opened: bool,
    pub mode: i32,
    pub current_track: Option<u8>,
    pub notify_requested: bool,
    pub tracks: Map<u8, AudioAsset>,
}

impl View for NativeCdAudioState {
    type V = CdModel;

    open spec fn view(&self) -> CdModel {
        CdModel {
            opened: self.opened,
            mode: self.mode,
            current_track: self.current_track,
            notify_requested: self.notify_requested,
            tracks: self.tracks@,
        }
    }
}

/// The closed device.
pub open spec fn closed_cd() -> CdModel {
    CdModel {
        opened: false,
        mode: 0,
        current_track: None,
        notify_requested: false,
        tracks: Map::empty(),
    }
}

impl NativeCdAudioState {
    /// A closed device with no tracks.
    pub fn closed() -> (s: Self)
        ensures
            s@ == closed_cd(),
    {
        NativeCdAudioState {
            opened: false,
            mode: 0,
            current_track: None,
            notify_requested: false,
            tracks: HashMap::new(),
        }
    }
}

pub const BGM_CHANNELS: usize = 16;
pub const SOUND_CHANNELS: usize = 64;

/// Sound state: resident BGM and effect buffers by channel, the requests
/// queued for the audio backend and the clocks, per-channel activity flags,
/// the four gain banks of each kind (primary, secondary, play, fade; each
/// `0..=128`), and the virtual CD device.
pub struct NativeSoundState {
    pub bgm_slots: HashMap<i32, SoundSlot>,
    pub sound_slots: HashMap<i32, SoundSlot>,
    pub audio_requests: VecDeque<AudioCommand>,
    pub clock_requests: VecDeque<ClockRequest>,
    pub bgm_channel_active: [bool; 16],
    pub sound_channel_active: [bool; 64],
    pub bgm_primary_volumes: [u8; 16],
    pub bgm_secondary_volumes: [u8; 16],
    pub bgm_play_volumes: [u8; 16],
    pub bgm_fade_volumes: [u8; 16],
    pub sound_primary_volumes: [u8; 64],
    pub sound_secondary_volumes: [u8; 64],
    pub sound_play_volumes: [u8; 64],
    pub sound_fade_volumes: [u8; 64],
    pub native_cd_audio: NativeCdAudioState,
}

/// The abstract sound state.
#[verifier::ext_equal]
pub struct SoundModel {
    pub bgm_slots: Map<i32, SoundSlot>,
    pub sound_slots: Map<i32, SoundSlot>,
    pub audio_requests: Seq<AudioCommand>,
    pub clock_requests: Seq<ClockRequest>,
    pub bgm_active: Seq<bool>,
    pub sound_active: Seq<bool>,
    pub bgm_primary: Seq<u8>,
    pub bgm_secondary: Seq<u8>,
    pub bgm_play: Seq<u8>,
    pub bgm_fade: Seq<u8>,
    pub sound_primary: Seq<u8>,
    pub sound_secondary: Seq<u8>,
    pub sound_play: Seq<u8>,
    pub sound_fade: Seq<u8>,
    pub cd: CdModel,
}

impl View for NativeSoundState {
    type V = SoundModel;

    open spec fn view(&self) -> SoundModel {
        SoundModel {
            bgm_slots: self.bgm_slots@,
            sound_slots: self.sound_slots@,
            audio_requests: self.audio_requests@,
            clock_requests: self.clock_requests@,
            bgm_active: self.bgm_channel_active@,
            sound_active: self.sound_channel_active@,
            bgm_primary: self.bgm_primary_volumes@,
            bgm_secondary: self.bgm_secondary_volumes@,
            bgm_play: self.bgm_play_volumes@,
            bgm_fade: self.bgm_fade_volumes@,
            sound_primary: self.sound_primary_volumes@,
            sound_secondary: self.sound_secondary_volumes@,
            sound_play: self.sound_play_volumes@,
            sound_fade: self.sound_fade_volumes@,
            cd: self.native_cd_audio@,
        }
    }
}

impl NativeSoundState {
    /// No buffers, nothing queued, every channel idle, every gain bank at
    /// full scale, the CD device closed.
    pub fn new() -> (s: Self)
        ensures
            s@.bgm_slots == Map::<i32, SoundSlot>::empty(),
            s@.sound_slots == Map::<i32, SoundSlot>::empty(),
            s@.audio_requests.len() == 0,
            s@.clock_requests.len() == 0,
            forall|i: int| 0 <= i < BGM_CHANNELS ==> !#[trigger] s@.bgm_active[i],
            forall|i: int| 0 <= i < SOUND_CHANNELS ==> !#[trigger] s@.sound_active[i],
            forall|i: int|
                0 <= i < BGM_CHANNELS ==> #[trigger] s@.bgm_primary[i] == 128 && s@.bgm_secondary[i] == 128
                    && s@.bgm_play[i] == 128 && s@.bgm_fade[i] == 128,
            forall|i: int|
                0 <= i < SOUND_CHANNELS ==> #[trigger] s@.sound_primary[i] == 128 && s@.sound_secondary[i]
                    == 128 && s@.sound_play[i] == 128 && s@.sound_fade[i] == 128,
            s@.cd == closed_cd(),
    {
        NativeSoundState {
            bgm_slots: HashMap::new(),
            sound_slots: HashMap::new(),
            audio_requests: VecDeque::new(),
            clock_requests: VecDeque::new(),
            bgm_channel_active: [false; 16],
            sound_channel_active: [false; 64],
            bgm_primary_volumes: [128u8; 16],
            bgm_secondary_volumes: [128u8; 16],
            bgm_play_volumes: [128u8; 16],
            bgm_fade_volumes: [128u8; 16],
            sound_primary_volumes: [128u8; 64],
            sound_secondary_volumes: [128u8; 64],
            sound_play_volumes: [128u8; 64],
            sound_fade_volumes: [128u8; 64],
            native_cd_audio: NativeCdAudioState::closed(),
        }
    }
}

/// `v` clamped to `0..=128`.
pub open spec fn clamp_volume(v: i32) -> u8 {
    if v < 0 {
        0
    } else if v > 128 {
        128
    } else {
        v as u8
    }
}

fn clamp_volume_exec(v: i32) -> (out: u8)
    ensures
        out == clamp_volume(v),
{
    if v < 0 {
        0
    } else if v > 128 {
        128
    } else {
        v as u8
    }
}

/// Whether `channel` has BGM gain banks and an activity flag.
pub open spec fn bgm_channel(channel: i32) -> bool {
    0 <= channel < BGM_CHANNELS
}

/// Whether `channel` has effect gain banks and an activity flag.
pub open spec fn sound_channel(channel: i32) -> bool {
    0 <= channel < SOUND_CHANNELS
}

/// The effective gain of a BGM channel: the mix of its four banks, or 0 for
/// a channel without banks.
pub open spec fn bgm_effective(m: SoundModel, channel: i32) -> int {
    if bgm_channel(channel) {
        let c = channel as int;
        mixer_level(seq![m.bgm_primary[c], m.bgm_secondary[c], m.bgm_play[c], m.bgm_fade[c]])
    } else {
        0
    }
}

/// The four gain factors of an effect channel, all 0 for a channel without
/// banks.
pub open spec fn sound_factors(m: SoundModel, channel: i32) -> Seq<u8> {
    if sound_channel(channel) {
        let c = channel as int;
        seq![m.sound_primary[c], m.sound_secondary[c], m.sound_play[c], m.sound_fade[c]]
    } else {
        seq![0u8, 0u8, 0u8, 0u8]
    }
}

/// The effective gain of an effect channel.
pub open spec fn sound_effective(m: SoundModel, channel: i32) -> int {
    mixer_level(sound_factors(m, channel))
}

pub const NATIVE_CD_AUDIO_CHANNEL: i32 = 0x1FE;

/// How far a native attenuation factor falls short of full scale, after
/// clamping it to `0..=128`.
pub open spec fn factor_deficit(v: u8) -> int {
    128 - (if v > 128 { 128int } else { v as int })
}

/// Gain, in 1/128 steps, of four native attenuation factors: silent when any
/// factor is 0; otherwise the summed deficits attenuate by 3/8 step each, at
/// most fully.
pub open spec fn mixer_level(factors: Seq<u8>) -> int {
    if factors[0] == 0 || factors[1] == 0 || factors[2] == 0 || factors[3] == 0 {
        0
    } else {
        let att = (factor_deficit(factors[0]) + factor_deficit(factors[1]) + factor_deficit(
            factors[2],
        ) + factor_deficit(factors[3])) * 3 / 8;
        128 - (if att > 128 { 128 } else { att })
    }
}

fn deficit_of(v: u8) -> (d: u32)
    ensures
        d == factor_deficit(v),
        d <= 128,
{
    if v > 128 {
        0
    } else {
        128 - v as u32
    }
}

/// Gain, in 1/128 steps, of four native attenuation factors.
pub fn native_mixer_volume(factors: [u8; 4]) -> (level: u32)
    ensures
        level as int == mixer_level(factors@),
        level <= 128,
{
    if factors[0] == 0 || factors[1] == 0 || factors[2] == 0 || factors[3] == 0 {
        return 0;
    }
    let deficit = deficit_of(factors[0]) + deficit_of(factors[1]) + deficit_of(factors[2])
        + deficit_of(factors[3]);
    let att = deficit * 3 / 8;
    128 - if att > 128 { 128 } else { att }
}

/// Length of the track-name prefix that `lower` starts with, tried in the
/// order `track`, `cdda`, `audio`, `cd`; 0 when there is none.
pub open spec fn track_prefix_len(lower: Seq<char>) -> int {
    if starts_with(lower, seq!['t', 'r', 'a', 'c', 'k']) {
        5
    } else if starts_with(lower, seq!['c', 'd', 'd', 'a']) {
        4
    } else if starts_with(lower, seq!['a', 'u', 'd', 'i', 'o']) {
        5
    } else if starts_with(lower, seq!['c', 'd']) {
        2
    } else {
        0
    }
}

/// The separators allowed between a track prefix and its number.
pub open spec fn is_track_separator(c: char) -> bool {
    c == '_' || c == '-' || c == ' '
}

/// The first index at or after `i` that does not hold a separator.
pub open spec fn skip_separators_from(s: Seq<char>, i: int) -> int
    decreases s.len() - i,
{
    if i >= s.len() || !is_track_separator(s[i]) {
        i
    } else {
        skip_separators_from(s, i + 1)
    }
}

/// The text of a track stem that must be its number: the trimmed, lowered
/// stem without its prefix and the separators after it.
pub open spec fn track_digits(stem: Seq<char>) -> Seq<char> {
    let lower = lower_seq(trim_seq(stem));
    let p = track_prefix_len(lower);
    if p == 0 {
        lower
    } else {
        lower.skip(skip_separators_from(lower, p))
    }
}

/// The one-based track a stem names: its digits must be all decimal and
/// their value in `1..=255`.
pub open spec fn track_number_spec(stem: Seq<char>) -> Option<u8> {
    let d = track_digits(stem);
    if all_digits(d) && 1 <= digits_value(d) <= 255 {
        Some(digits_value(d) as u8)
    } else {
        None
    }
}

proof fn lemma_skip_separators_bounds(s: Seq<char>, i: int)
    requires
        0 <= i <= s.len(),
    ensures
        i <= skip_separators_from(s, i) <= s.len(),
    decreases s.len() - i,
{
    if i < s.len() && is_track_separator(s[i]) {
        lemma_skip_separators_bounds(s, i + 1);
    }
}

fn has_prefix(s: &Vec<char>, p: &[char]) -> (out: bool)
    ensures
        out == starts_with(s@, p@),
{
    if p.len() > s.len() {
        return false;
    }
    let mut i: usize = 0;
    while i < p.len()
        invariant
            i <= p.len() <= s.len(),
            forall|k: int| 0 <= k < i ==> s@[k] == p@[k],
        decreases p.len() - i,
    {
        if s[i] != p[i] {
            assert(s@.take(p@.len() as int)[i as int] != p@[i as int]);
            return false;
        }
        i += 1;
    }
    assert(s@.take(p@.len() as int) =~= p@);
    true
}

fn prefix_len_of(lower: &Vec<char>) -> (n: usize)
    ensures
        n == track_prefix_len(lower@),
{
    let track = ['t', 'r', 'a', 'c', 'k'];
    let cdda = ['c', 'd', 'd', 'a'];
    let audio = ['a', 'u', 'd', 'i', 'o'];
    let cd = ['c', 'd'];
    assert(track@ =~= seq!['t', 'r', 'a', 'c', 'k']);
    assert(cdda@ =~= seq!['c', 'd', 'd', 'a']);
    assert(audio@ =~= seq!['a', 'u', 'd', 'i', 'o']);
    assert(cd@ =~= seq!['c', 'd']);
    if has_prefix(lower, track.as_slice()) {
        5
    } else if has_prefix(lower, cdda.as_slice()) {
        4
    } else if has_prefix(lower, audio.as_slice()) {
        5
    } else if has_prefix(lower, cd.as_slice()) {
        2
    } else {
        0
    }
}

/// The one-based TMSF track number a virtual CD track's file stem names:
/// `track01`, `CDDA_255`, `audio-12`, or bare digits, within `1..=255`.
pub fn parse_native_cd_track_number(stem: &str) -> (out: Option<u8>)
    ensures
        out == track_number_spec(stem@),
{
    let lower = lower_vec(&vec_trim(&chars_of(stem)));
    let p = prefix_len_of(&lower);
    let mut start: usize = p;
    if p > 0 {
        while start < lower.len() && (lower[start] == '_' || lower[start] == '-' || lower[start] == ' ')
            invariant
                p <= start <= lower.len(),
                skip_separators_from(lower@, p as int) == skip_separators_from(lower@, start as int),
            decreases lower.len() - start,
        {
            start += 1;
        }
    }
    proof {
        if p > 0 {
            lemma_skip_separators_bounds(lower@, p as int);
        }
        assert(track_digits(stem@) == lower@.skip(start as int));
    }
    if start >= lower.len() {
        assert(lower@.skip(start as int).len() == 0);
        return None;
    }
    let mut i: usize = start;
    while i < lower.len()
        invariant
            start <= i <= lower.len(),
            forall|k: int| start <= k < i ==> is_digit(#[trigger] lower@[k]),
            track_digits(stem@) == lower@.skip(start as int),
        decreases lower.len() - i,
    {
        if !('0' <= lower[i] && lower[i] <= '9') {
            assert(lower@.skip(start as int)[i - start] == lower@[i as int]);
            return None;
        }
        i += 1;
    }
    assert(all_digits(lower@.skip(start as int)));
    match digits_value_upto(&lower, start, 255) {
        Some(v) => {
            if v == 0 {
                None
            } else {
                Some(v as u8)
            }
        },
        None => None,
    }
}

/// The last index below `i` holding a path separator (`/` or `\`), or -1.
pub open spec fn last_separator_before(s: Seq<char>, i: int) -> int
    decreases i,
{
    if i <= 0 {
        -1
    } else if s[i - 1] == '/' || s[i - 1] == '\\' {
        i - 1
    } else {
        last_separator_before(s, i - 1)
    }
}

/// The last index below `i` holding `.`, or -1.
pub open spec fn last_dot_before(s: Seq<char>, i: int) -> int
    decreases i,
{
    if i <= 0 {
        -1
    } else if s[i - 1] == '.' {
        i - 1
    } else {
        last_dot_before(s, i - 1)
    }
}

/// The stem of an archive entry's name: the last path component (either
/// slash separates) without its last extension.
pub open spec fn entry_stem(name: Seq<char>) -> Seq<char> {
    let leaf = name.skip(last_separator_before(name, name.len() as int) + 1);
    let dot = last_dot_before(leaf, leaf.len() as int);
    if dot < 0 {
        leaf
    } else {
        leaf.take(dot)
    }
}

proof fn lemma_last_separator_bounds(s: Seq<char>, i: int)
    requires
        0 <= i <= s.len(),
    ensures
        -1 <= last_separator_before(s, i) < i,
    decreases i,
{
    if i > 0 && !(s[i - 1] == '/' || s[i - 1] == '\\') {
        lemma_last_separator_bounds(s, i - 1);
    }
}

proof fn lemma_last_dot_bounds(s: Seq<char>, i: int)
    requires
        0 <= i <= s.len(),
    ensures
        -1 <= last_dot_before(s, i) < i,
    decreases i,
{
    if i > 0 && s[i - 1] != '.' {
        lemma_last_dot_bounds(s, i - 1);
    }
}

/// The track an archive entry provides as a packed virtual CD track: its
/// stem must start (trimmed, ignoring ASCII case) with one of the track
/// prefixes and name a track number.
pub fn parse_native_cd_track_resource_name(name: &str) -> (out: Option<u8>)
    ensures
        out == (if track_prefix_len(lower_seq(trim_seq(entry_stem(name@)))) == 0 {
            None
        } else {
            track_number_spec(entry_stem(name@))
        }),
{
    let chars = chars_of(name);
    let mut j: usize = chars.len();
    while j > 0 && !(chars[j - 1] == '/' || chars[j - 1] == '\\')
        invariant
            j <= chars.len(),
            last_separator_before(chars@, chars@.len() as int) == last_separator_before(chars@, j as int),
        decreases j,
    {
        j -= 1;
    }
    proof {
        lemma_last_separator_bounds(chars@, j as int);
    }
    let leaf = vec_skip(&chars, j);
    let mut k: usize = leaf.len();
    while k > 0 && leaf[k - 1] != '.'
        invariant
            k <= leaf.len(),
            last_dot_before(leaf@, leaf@.len() as int) == last_dot_before(leaf@, k as int),
        decreases k,
    {
        k -= 1;
    }
    proof {
        lemma_last_dot_bounds(leaf@, k as int);
    }
    let stem = if k == 0 {
        leaf
    } else {
        crate::text::vec_take(&leaf, k - 1)
    };
    assert(stem@ == entry_stem(name@));
    let lower = lower_vec(&vec_trim(&stem));
    if prefix_len_of(&lower) == 0 {
        return None;
    }
    let stem_text = crate::text::string_of(&stem);
    parse_native_cd_track_number(stem_text.as_str())
}

/// The backend channel of sound-effect channel `channel`.
pub fn native_se_audio_channel(channel: i32) -> (out: i32)
    requires
        channel <= i32::MAX - 0x100,
    ensures
        out == 0x100 + channel,
{
    0x100 + channel
}

/// Sets one channel flag when the channel is in range.
pub fn set_bgm_channel_active(active: &mut [bool; 16], channel: i32, value: bool)
    ensures
        0 <= channel < 16 ==> final(active)@ == old(active)@.update(channel as int, value),
        !(0 <= channel < 16) ==> final(active)@ == old(active)@,
{
    if 0 <= channel && channel < 16 {
        active[channel as usize] = value;
    }
}

/// The clock of a channel, when the channel is in range.
pub fn native_clock<T: Copy>(clocks: &[T], channel: i32) -> (out: Option<T>)
    ensures
        0 <= channel < clocks@.len() ==> out == Some(clocks@[channel as int]),
        !(0 <= channel < clocks@.len()) ==> out is None,
{
    if 0 <= channel && (channel as usize) < clocks.len() {
        Some(clocks[channel as usize])
    } else {
        None
    }
}


/// The same, activity flag cleared or set.
pub fn set_sound_channel_active(active: &mut [bool; 64], channel: i32, value: bool)
    ensures
        0 <= channel < 64 ==> final(active)@ == old(active)@.update(channel as int, value),
        !(0 <= channel < 64) ==> final(active)@ == old(active)@,
{
    if 0 <= channel && channel < 64 {
        active[channel as usize] = value;
    }
}

impl SoundModel {
    /// `c` queued for the audio backend.
    pub open spec fn push_audio(self, c: AudioCommand) -> SoundModel {
        SoundModel { audio_requests: self.audio_requests.push(c), ..self }
    }

    /// `c` queued for the clocks.
    pub open spec fn push_clock(self, c: ClockRequest) -> SoundModel {
        SoundModel { clock_requests: self.clock_requests.push(c), ..self }
    }

    /// A BGM channel's activity flag set, when it has one.
    pub open spec fn set_bgm_active(self, channel: i32, v: bool) -> SoundModel {
        if bgm_channel(channel) {
            SoundModel { bgm_active: self.bgm_active.update(channel as int, v), ..self }
        } else {
            self
        }
    }

    /// An effect channel's activity flag set, when it has one.
    pub open spec fn set_sound_active(self, channel: i32, v: bool) -> SoundModel {
        if sound_channel(channel) {
            SoundModel { sound_active: self.sound_active.update(channel as int, v), ..self }
        } else {
            self
        }
    }

    /// A BGM channel's play gain set (clamped), when it has banks.
    pub open spec fn set_bgm_play(self, channel: i32, v: i32) -> SoundModel {
        if bgm_channel(channel) {
            SoundModel { bgm_play: self.bgm_play.update(channel as int, clamp_volume(v)), ..self }
        } else {
            self
        }
    }

    /// A BGM channel's fade gain set (clamped), when it has banks.
    pub open spec fn set_bgm_fade(self, channel: i32, v: i32) -> SoundModel {
        if bgm_channel(channel) {
            SoundModel { bgm_fade: self.bgm_fade.update(channel as int, clamp_volume(v)), ..self }
        } else {
            self
        }
    }

    /// An effect channel's play gain set (clamped), when it has banks.
    pub open spec fn set_sound_play(self, channel: i32, v: i32) -> SoundModel {
        if sound_channel(channel) {
            SoundModel { sound_play: self.sound_play.update(channel as int, clamp_volume(v)), ..self }
        } else {
            self
        }
    }

    /// An effect channel's fade gain set (clamped), when it has banks.
    pub open spec fn set_sound_fade(self, channel: i32, v: i32) -> SoundModel {
        if sound_channel(channel) {
            SoundModel { sound_fade: self.sound_fade.update(channel as int, clamp_volume(v)), ..self }
        } else {
            self
        }
    }

    /// A BGM channel's current gain sent to the backend.
    pub open spec fn apply_bgm_volume(self, channel: i32, duration: i32) -> SoundModel {
        self.push_audio(
            AudioCommand::SetVolume { channel, volume: bgm_effective(self, channel) as u32, duration },
        )
    }

    /// An effect channel's current gain sent to the backend.
    pub open spec fn apply_sound_volume(self, channel: i32, duration: i32) -> SoundModel {
        self.push_audio(
            AudioCommand::SetVolume {
                channel: (0x100 + channel) as i32,
                volume: sound_effective(self, channel) as u32,
                duration,
            },
        )
    }

    /// An effect channel stopped: the backend told, the flag cleared, the
    /// clock stopped.
    pub open spec fn release_sound(self, channel: i32) -> SoundModel {
        let m = self.push_audio(AudioCommand::Stop { channel: (0x100 + channel) as i32 }).set_sound_active(
            channel,
            false,
        );
        if sound_channel(channel) {
            m.push_clock(ClockRequest::StopSound { channel })
        } else {
            m
        }
    }

    /// A BGM clock started, when the channel has one.
    pub open spec fn start_bgm_clock(self, channel: i32, rate: i32) -> SoundModel {
        if bgm_channel(channel) {
            self.push_clock(ClockRequest::StartBgm { channel, playback_rate_fixed: rate })
        } else {
            self
        }
    }

    /// A BGM clock paused or resumed, when the channel has one.
    pub open spec fn pause_bgm_clock(self, channel: i32, paused: bool) -> SoundModel {
        if bgm_channel(channel) {
            self.push_clock(ClockRequest::PauseBgm { channel, paused })
        } else {
            self
        }
    }

    /// An effect clock started, when the channel has one.
    pub open spec fn start_sound_clock(self, channel: i32, rate: i32) -> SoundModel {
        if sound_channel(channel) {
            self.push_clock(ClockRequest::StartSound { channel, playback_rate_fixed: rate })
        } else {
            self
        }
    }
}

/// The play request for a resident buffer.
pub open spec fn play_command(slot: SoundSlot, channel: i32, volume: int, restart: bool) -> AudioCommand {
    AudioCommand::Play {
        asset: slot.asset,
        loop_asset: slot.loop_asset,
        channel,
        looped: slot.looped,
        volume: volume as u32,
        decode_gain_fixed: slot.decode_gain_fixed,
        playback_rate_fixed: slot.playback_rate_fixed,
        panning: slot.panning,
        restart,
    }
}

impl RuntimeTraceApi {
    /// The mix of a BGM channel's four gain banks; 0 for a channel without
    /// banks.
    pub fn native_bgm_effective_volume(&self, channel: i32) -> (v: u32)
        ensures
            v == bgm_effective(self.sound@, channel),
            v <= 128,
    {
        if channel < 0 || channel >= 16 {
            return 0;
        }
        let i = channel as usize;
        let f = [
            self.sound.bgm_primary_volumes[i],
            self.sound.bgm_secondary_volumes[i],
            self.sound.bgm_play_volumes[i],
            self.sound.bgm_fade_volumes[i],
        ];
        assert(f@ =~= seq![
            self.sound@.bgm_primary[i as int],
            self.sound@.bgm_secondary[i as int],
            self.sound@.bgm_play[i as int],
            self.sound@.bgm_fade[i as int],
        ]);
        native_mixer_volume(f)
    }

    /// Sends a BGM channel's current gain to the backend, fading over
    /// `duration`.
    pub fn apply_native_bgm_volume(&mut self, channel: i32, duration: i32)
        ensures
            final(self).same_outside_sound(*old(self)),
            final(self).sound@ == old(self).sound@.apply_bgm_volume(channel, duration),
    {
        let volume = self.native_bgm_effective_volume(channel);
        self.sound.audio_requests.push_back(AudioCommand::SetVolume { channel, volume, duration });
        assert(self.sound@ =~= old(self).sound@.apply_bgm_volume(channel, duration));
    }

    /// Sets a primary or secondary BGM gain bank entry (clamped to
    /// `0..=128`) and sends the new gain at once; channels without banks are
    /// ignored.
    pub fn set_native_bgm_gain_bank(&mut self, channel: i32, volume: i32, primary: bool)
        ensures
            final(self).same_outside_sound(*old(self)),
            final(self).sound@ == bgm_gain_spec(old(self).sound@, channel, volume, primary),
    {
        if channel < 0 || channel >= 16 {
            return;
        }
        let v = clamp_volume_exec(volume);
        if primary {
            self.sound.bgm_primary_volumes[channel as usize] = v;
        } else {
            self.sound.bgm_secondary_volumes[channel as usize] = v;
        }
        let ghost mid = self.sound@;
        assert(mid =~= (if primary {
            SoundModel {
                bgm_primary: old(self).sound@.bgm_primary.update(channel as int, clamp_volume(volume)),
                ..old(self).sound@
            }
        } else {
            SoundModel {
                bgm_secondary: old(self).sound@.bgm_secondary.update(channel as int, clamp_volume(volume)),
                ..old(self).sound@
            }
        }));
        self.apply_native_bgm_volume(channel, 0);
    }

    /// Sets a BGM channel's play gain (clamped); channels without banks are
    /// ignored.
    pub fn set_native_bgm_play_volume(&mut self, channel: i32, volume: i32)
        ensures
            final(self).same_outside_sound(*old(self)),
            final(self).sound@ == old(self).sound@.set_bgm_play(channel, volume),
    {
        if 0 <= channel && channel < 16 {
            self.sound.bgm_play_volumes[channel as usize] = clamp_volume_exec(volume);
        }
        assert(self.sound@ =~= old(self).sound@.set_bgm_play(channel, volume));
    }

    /// Sets a BGM channel's fade gain (clamped); channels without banks are
    /// ignored.
    pub fn set_native_bgm_fade_volume(&mut self, channel: i32, volume: i32)
        ensures
            final(self).same_outside_sound(*old(self)),
            final(self).sound@ == old(self).sound@.set_bgm_fade(channel, volume),
    {
        if 0 <= channel && channel < 16 {
            self.sound.bgm_fade_volumes[channel as usize] = clamp_volume_exec(volume);
        }
        assert(self.sound@ =~= old(self).sound@.set_bgm_fade(channel, volume));
    }

    /// The four gain factors of an effect channel; all 0 for a channel
    /// without banks.
    pub fn native_sound_volume_factors(&self, channel: i32) -> (f: [u8; 4])
        ensures
            f@ == sound_factors(self.sound@, channel),
    {
        if channel < 0 || channel >= 64 {
            let z = [0u8, 0u8, 0u8, 0u8];
            assert(z@ =~= seq![0u8, 0u8, 0u8, 0u8]);
            return z;
        }
        let i = channel as usize;
        let f = [
            self.sound.sound_primary_volumes[i],
            self.sound.sound_secondary_volumes[i],
            self.sound.sound_play_volumes[i],
            self.sound.sound_fade_volumes[i],
        ];
        assert(f@ =~= sound_factors(self.sound@, channel));
        f
    }

    /// The mix of an effect channel's four gain banks.
    pub fn native_sound_effective_volume(&self, channel: i32) -> (v: u32)
        ensures
            v == sound_effective(self.sound@, channel),
            v <= 128,
    {
        native_mixer_volume(self.native_sound_volume_factors(channel))
    }

    /// Sends an effect channel's current gain to its backend channel,
    /// fading over `duration`.
    pub fn apply_native_sound_volume(&mut self, channel: i32, duration: i32)
        requires
            channel <= i32::MAX - 0x100,
        ensures
            final(self).same_outside_sound(*old(self)),
            final(self).sound@ == old(self).sound@.apply_sound_volume(channel, duration),
    {
        let volume = self.native_sound_effective_volume(channel);
        self.sound.audio_requests.push_back(
            AudioCommand::SetVolume { channel: native_se_audio_channel(channel), volume, duration },
        );
        assert(self.sound@ =~= old(self).sound@.apply_sound_volume(channel, duration));
    }

    /// Sets a primary or secondary effect gain bank entry (clamped) and
    /// sends the new gain at once; channels without banks are ignored.
    pub fn set_native_sound_gain_bank(&mut self, channel: i32, volume: i32, primary: bool)
        ensures
            final(self).same_outside_sound(*old(self)),
            final(self).sound@ == sound_gain_spec(old(self).sound@, channel, volume, primary),
    {
        if channel < 0 || channel >= 64 {
            return;
        }
        let v = clamp_volume_exec(volume);
        if primary {
            self.sound.sound_primary_volumes[channel as usize] = v;
        } else {
            self.sound.sound_secondary_volumes[channel as usize] = v;
        }
        let ghost mid = self.sound@;
        assert(mid =~= (if primary {
            SoundModel {
                sound_primary: old(self).sound@.sound_primary.update(channel as int, clamp_volume(volume)),
                ..old(self).sound@
            }
        } else {
            SoundModel {
                sound_secondary: old(self).sound@.sound_secondary.update(channel as int, clamp_volume(volume)),
                ..old(self).sound@
            }
        }));
        self.apply_native_sound_volume(channel, 0);
    }

    /// Sets an effect channel's play gain (clamped); channels without banks
    /// are ignored.
    pub fn set_native_sound_play_volume(&mut self, channel: i32, volume: i32)
        ensures
            final(self).same_outside_sound(*old(self)),
            final(self).sound@ == old(self).sound@.set_sound_play(channel, volume),
    {
        if 0 <= channel && channel < 64 {
            self.sound.sound_play_volumes[channel as usize] = clamp_volume_exec(volume);
        }
        assert(self.sound@ =~= old(self).sound@.set_sound_play(channel, volume));
    }

    /// Sets an effect channel's fade gain (clamped); channels without banks
    /// are ignored.
    pub fn set_native_sound_fade_volume(&mut self, channel: i32, volume: i32)
        ensures
            final(self).same_outside_sound(*old(self)),
            final(self).sound@ == old(self).sound@.set_sound_fade(channel, volume),
    {
        if 0 <= channel && channel < 64 {
            self.sound.sound_fade_volumes[channel as usize] = clamp_volume_exec(volume);
        }
        assert(self.sound@ =~= old(self).sound@.set_sound_fade(channel, volume));
    }
}


impl SoundModel {
    /// An effect buffer played from the start: the play gain is set (also
    /// without a buffer); a resident buffer takes pan `pan` and is played
    /// with the channel's gain, its flag set and its clock started.
    pub open spec fn play_slot(self, channel: i32, volume: i32, pan: i32) -> SoundModel {
        let m = self.set_sound_play(channel, volume);
        if m.sound_slots.contains_key(channel) {
            let slot = SoundSlot { panning: Some(pan), ..m.sound_slots[channel] };
            SoundModel { sound_slots: m.sound_slots.insert(channel, slot), ..m }.push_audio(
                play_command(slot, (0x100 + channel) as i32, sound_effective(m, channel), true),
            ).set_sound_active(channel, true).start_sound_clock(channel, slot.playback_rate_fixed)
        } else {
            m
        }
    }
}

impl RuntimeTraceApi {
    /// Starts a resident BGM buffer that is waiting for its first start: the
    /// buffer's restart latch is consumed either way, and a play request
    /// with the channel's current gain is sent only when it was set. True
    /// when a play request was sent.
    pub fn play_loaded_native_bgm(&mut self, channel: i32) -> (out: bool)
        ensures
            final(self).same_outside_sound(*old(self)),
            (final(self).sound@, out) == old(self).sound@.play_loaded_bgm(channel),
    {
        broadcast use vstd::std_specs::hash::group_hash_axioms;

        let slot = match self.sound.bgm_slots.get(&channel) {
            Some(s) => s.duplicate(),
            None => {
                return false;
            },
        };
        let restart = slot.needs_restart;
        let mut updated = slot.duplicate();
        updated.needs_restart = false;
        self.sound.bgm_slots.insert(channel, updated);
        let ghost m = self.sound@;
        assert(m =~= SoundModel {
            bgm_slots: old(self).sound@.bgm_slots.insert(channel, SoundSlot { needs_restart: false, ..slot }),
            ..old(self).sound@
        });
        if !restart {
            return false;
        }
        let volume = self.native_bgm_effective_volume(channel);
        self.sound.audio_requests.push_back(
            AudioCommand::Play {
                asset: slot.asset,
                loop_asset: slot.loop_asset,
                channel,
                looped: slot.looped,
                volume,
                decode_gain_fixed: slot.decode_gain_fixed,
                playback_rate_fixed: slot.playback_rate_fixed,
                panning: slot.panning,
                restart: true,
            },
        );
        assert(self.sound@ =~= m.push_audio(play_command(slot, channel, bgm_effective(m, channel), true)));
        true
    }

    /// Stops an effect channel without freeing its buffer: the backend
    /// channel is stopped, the activity flag cleared and the clock stopped.
    pub fn release_native_sound_playback(&mut self, channel: i32)
        requires
            channel <= i32::MAX - 0x100,
        ensures
            final(self).same_outside_sound(*old(self)),
            final(self).sound@ == old(self).sound@.release_sound(channel),
    {
        self.sound.audio_requests.push_back(AudioCommand::Stop { channel: native_se_audio_channel(channel) });
        set_sound_channel_active(&mut self.sound.sound_channel_active, channel, false);
        self.stop_sound_clock(channel);
        assert(self.sound@ =~= old(self).sound@.release_sound(channel));
    }

    /// Stops an effect channel's clock, when it has one.
    pub fn stop_sound_clock(&mut self, channel: i32)
        ensures
            final(self).same_outside_sound(*old(self)),
            final(self).sound@ == if sound_channel(channel) {
                old(self).sound@.push_clock(ClockRequest::StopSound { channel })
            } else {
                old(self).sound@
            },
    {
        if 0 <= channel && channel < 64 {
            self.sound.clock_requests.push_back(ClockRequest::StopSound { channel });
        }
        assert(self.sound@ =~= if sound_channel(channel) {
            old(self).sound@.push_clock(ClockRequest::StopSound { channel })
        } else {
            old(self).sound@
        });
    }

    /// Starts an effect channel's clock at a 16.16 playback rate, when it
    /// has one.
    pub fn start_sound_clock(&mut self, channel: i32, playback_rate_fixed: i32)
        ensures
            final(self).same_outside_sound(*old(self)),
            final(self).sound@ == old(self).sound@.start_sound_clock(channel, playback_rate_fixed),
    {
        if 0 <= channel && channel < 64 {
            self.sound.clock_requests.push_back(ClockRequest::StartSound { channel, playback_rate_fixed });
        }
        assert(self.sound@ =~= old(self).sound@.start_sound_clock(channel, playback_rate_fixed));
    }

    /// Starts a BGM channel's clock at a 16.16 playback rate, when it has
    /// one.
    pub fn start_bgm_clock(&mut self, channel: i32, playback_rate_fixed: i32)
        ensures
            final(self).same_outside_sound(*old(self)),
            final(self).sound@ == old(self).sound@.start_bgm_clock(channel, playback_rate_fixed),
    {
        if 0 <= channel && channel < 16 {
            self.sound.clock_requests.push_back(ClockRequest::StartBgm { channel, playback_rate_fixed });
        }
        assert(self.sound@ =~= old(self).sound@.start_bgm_clock(channel, playback_rate_fixed));
    }

    /// Pauses or resumes a BGM channel's clock, when it has one.
    pub fn set_bgm_clock_paused(&mut self, channel: i32, paused: bool)
        ensures
            final(self).same_outside_sound(*old(self)),
            final(self).sound@ == old(self).sound@.pause_bgm_clock(channel, paused),
    {
        if 0 <= channel && channel < 16 {
            self.sound.clock_requests.push_back(ClockRequest::PauseBgm { channel, paused });
        }
        assert(self.sound@ =~= old(self).sound@.pause_bgm_clock(channel, paused));
    }

    /// The native completion status of a BGM channel: 0 while it plays, 1
    /// otherwise (also for a channel without a flag).
    pub fn bgm_status(&self, channel: i32) -> (status: i32)
        ensures
            status == (if bgm_channel(channel) && self.sound@.bgm_active[channel as int] {
                0i32
            } else {
                1i32
            }),
    {
        if 0 <= channel && channel < 16 && self.sound.bgm_channel_active[channel as usize] {
            0
        } else {
            1
        }
    }

    /// Plays a resident effect buffer from the start at play gain `volume`
    /// and native pan `pan`; the play gain is set even when the channel has
    /// no buffer.
    pub fn play_native_sound_slot(&mut self, channel: i32, volume: i32, pan: i32)
        requires
            channel <= i32::MAX - 0x100,
        ensures
            final(self).same_outside_sound(*old(self)),
            final(self).sound@ == old(self).sound@.play_slot(channel, volume, pan),
    {
        broadcast use vstd::std_specs::hash::group_hash_axioms;

        self.set_native_sound_play_volume(channel, volume);
        let ghost m = self.sound@;
        let mut slot = match self.sound.sound_slots.get(&channel) {
            Some(s) => s.duplicate(),
            None => {
                return;
            },
        };
        slot.panning = Some(pan);
        let kept = slot.duplicate();
        self.sound.sound_slots.insert(channel, kept);
        let effective = self.native_sound_effective_volume(channel);
        let rate = slot.playback_rate_fixed;
        self.sound.audio_requests.push_back(
            AudioCommand::Play {
                asset: slot.asset,
                loop_asset: slot.loop_asset,
                channel: native_se_audio_channel(channel),
                looped: slot.looped,
                volume: effective,
                decode_gain_fixed: slot.decode_gain_fixed,
                playback_rate_fixed: slot.playback_rate_fixed,
                panning: slot.panning,
                restart: true,
            },
        );
        set_sound_channel_active(&mut self.sound.sound_channel_active, channel, true);
        proof {
            let s2 = SoundSlot { panning: Some(pan), ..m.sound_slots[channel] };
            assert(self.sound@ =~= SoundModel {
                sound_slots: m.sound_slots.insert(channel, s2),
                ..m
            }.push_audio(play_command(s2, (0x100 + channel) as i32, sound_effective(m, channel), true)).set_sound_active(channel, true));
        }
        self.start_sound_clock(channel, rate);
    }
}


/// The BGM slot a freshly loaded buffer gets: not yet started, unit gain and
/// rate.
pub open spec fn fresh_bgm_slot(asset: AudioAsset, loop_asset: Option<AudioAsset>, looped: bool, panning: Option<i32>) -> SoundSlot {
    SoundSlot {
        asset,
        loop_asset,
        looped,
        decode_gain_fixed: 0x10000,
        playback_rate_fixed: 0x10000,
        panning,
        native_start_parameter: 0,
        needs_restart: true,
    }
}

impl SoundModel {
    /// A BGM buffer installed on a channel: the channel is stopped and marked
    /// idle and its fade gain reset to full scale; playback waits for an
    /// explicit start.
    pub open spec fn install_bgm(self, channel: i32, slot: SoundSlot) -> SoundModel {
        SoundModel { bgm_slots: self.bgm_slots.insert(channel, slot), ..self }.push_audio(
            AudioCommand::Stop { channel },
        ).set_bgm_active(channel, false).set_bgm_fade(channel, 128)
    }

    /// An effect buffer installed on a channel: play and fade gains reset to
    /// full scale and any playback on the channel released.
    pub open spec fn install_sound(self, channel: i32, slot: SoundSlot) -> SoundModel {
        SoundModel { sound_slots: self.sound_slots.insert(channel, slot), ..self }.set_sound_play(
            channel,
            128,
        ).set_sound_fade(channel, 128).release_sound(channel)
    }
}

/// Whether two names are equal ignoring ASCII case.
pub open spec fn eq_ignore_ascii_case(a: Seq<char>, b: Seq<char>) -> bool {
    lower_seq(a) == lower_seq(b)
}

/// The loop stream a two-part BGM needs loaded: the loop file (the intro
/// file when none is given), or `None` when that is the intro itself,
/// ignoring ASCII case.
pub fn native_bgm_loop_file(intro_file: &str, loop_file: &str) -> (out: Option<String>)
    ensures
        ({
            let lf = if loop_file@.len() == 0 { intro_file@ } else { loop_file@ };
            if eq_ignore_ascii_case(lf, intro_file@) {
                out is None
            } else {
                out matches Some(s) && s@ == lf
            }
        }),
{
    let chosen = if loop_file.unicode_len() == 0 { chars_of(intro_file) } else { chars_of(loop_file) };
    let a = lower_vec(&chosen);
    let b = lower_vec(&chars_of(intro_file));
    if crate::text::vec_eq(&a, &b) {
        None
    } else {
        Some(crate::text::string_of(&chosen))
    }
}

impl RuntimeTraceApi {
    /// Installs a resident BGM buffer from the resolved asset (`None` when
    /// the resource could not be found or read, which changes nothing).
    /// Loading never starts playback.
    pub fn load_native_bgm_slot(&mut self, channel: i32, resolved: Option<AudioAsset>, looped: bool) -> (loaded: bool)
        ensures
            final(self).same_outside_sound(*old(self)),
            loaded == resolved is Some,
            resolved is None ==> final(self).sound@ == old(self).sound@,
            resolved matches Some(a) ==> final(self).sound@ == old(self).sound@.install_bgm(
                channel,
                fresh_bgm_slot(a, None, looped, None),
            ),
    {
        let asset = match resolved {
            Some(a) => a,
            None => {
                return false;
            },
        };
        self.install_bgm(channel, asset, None, looped, None);
        true
    }

    /// Installs the two-stream BGM form: the intro stream plays once and the
    /// loop stream (when distinct) is the loop region. `loop_asset` is
    /// `None` when the loop stream could not be loaded, `Some(None)` when
    /// the intro is its own loop. Nothing changes unless both loaded.
    pub fn load_native_bgm_pair(
        &mut self,
        channel: i32,
        intro: Option<AudioAsset>,
        loop_asset: Option<Option<AudioAsset>>,
        looped: bool,
        panning: Option<i32>,
    ) -> (loaded: bool)
        ensures
            final(self).same_outside_sound(*old(self)),
            loaded == (intro is Some && loop_asset is Some),
            !loaded ==> final(self).sound@ == old(self).sound@,
            loaded ==> final(self).sound@ == old(self).sound@.install_bgm(
                channel,
                fresh_bgm_slot(intro->0, loop_asset->0, looped, panning),
            ),
    {
        let a = match intro {
            Some(a) => a,
            None => {
                return false;
            },
        };
        let l = match loop_asset {
            Some(l) => l,
            None => {
                return false;
            },
        };
        self.install_bgm(channel, a, l, looped, panning);
        true
    }

    fn install_bgm(
        &mut self,
        channel: i32,
        asset: AudioAsset,
        loop_asset: Option<AudioAsset>,
        looped: bool,
        panning: Option<i32>,
    )
        ensures
            final(self).same_outside_sound(*old(self)),
            final(self).sound@ == old(self).sound@.install_bgm(
                channel,
                fresh_bgm_slot(asset, loop_asset, looped, panning),
            ),
    {
        broadcast use vstd::std_specs::hash::group_hash_axioms;

        let ghost slot = fresh_bgm_slot(asset, loop_asset, looped, panning);
        self.sound.bgm_slots.insert(
            channel,
            SoundSlot {
                asset,
                loop_asset,
                looped,
                decode_gain_fixed: 0x10000,
                playback_rate_fixed: 0x10000,
                panning,
                native_start_parameter: 0,
                needs_restart: true,
            },
        );
        self.sound.audio_requests.push_back(AudioCommand::Stop { channel });
        set_bgm_channel_active(&mut self.sound.bgm_channel_active, channel, false);
        assert(self.sound@ =~= SoundModel {
            bgm_slots: old(self).sound@.bgm_slots.insert(channel, slot),
            ..old(self).sound@
        }.push_audio(AudioCommand::Stop { channel }).set_bgm_active(channel, false));
        self.set_native_bgm_fade_volume(channel, 128);
    }

    /// Installs a resident effect buffer from the resolved asset (`None`
    /// changes nothing) with the given 16.16 decoder gain and playback rate;
    /// gains reset and any playback on the channel is released.
    pub fn load_native_sound_slot(
        &mut self,
        channel: i32,
        resolved: Option<AudioAsset>,
        decode_gain_fixed: i32,
        playback_rate_fixed: i32,
        native_start_parameter: i32,
    ) -> (loaded: bool)
        requires
            channel <= i32::MAX - 0x100,
        ensures
            final(self).same_outside_sound(*old(self)),
            loaded == resolved is Some,
            resolved is None ==> final(self).sound@ == old(self).sound@,
            resolved matches Some(a) ==> final(self).sound@ == old(self).sound@.install_sound(
                channel,
                SoundSlot {
                    asset: a,
                    loop_asset: None,
                    looped: false,
                    decode_gain_fixed,
                    playback_rate_fixed,
                    panning: None,
                    native_start_parameter,
                    needs_restart: true,
                },
            ),
    {
        broadcast use vstd::std_specs::hash::group_hash_axioms;

        let asset = match resolved {
            Some(a) => a,
            None => {
                return false;
            },
        };
        let slot = SoundSlot {
            asset,
            loop_asset: None,
            looped: false,
            decode_gain_fixed,
            playback_rate_fixed,
            panning: None,
            native_start_parameter,
            needs_restart: true,
        };
        let ghost s = slot;
        self.sound.sound_slots.insert(channel, slot);
        assert(self.sound@ =~= SoundModel { sound_slots: old(self).sound@.sound_slots.insert(channel, s), ..old(self).sound@ });
        self.set_native_sound_play_volume(channel, 128);
        self.set_native_sound_fade_volume(channel, 128);
        self.release_native_sound_playback(channel);
        true
    }

    /// Installs an effect buffer that the script built in its own memory:
    /// for a channel in `0..64` and a block of at least 64 bytes, a slot whose
    /// asset is named `SoundA0_28_{channel}` in the `<vm-memory>` archive
    /// (the host keeps the block's bytes under that name), installed as
    /// [`Self::load_native_sound_slot`] installs one; otherwise nothing
    /// changes.
    pub fn register_native_sound_memory(
        &mut self,
        channel: i32,
        block: &[u8],
        native_start_parameter: i32,
        decode_gain_fixed: i32,
        playback_rate_fixed: i32,
    ) -> (registered: bool)
        ensures
            final(self).same_outside_sound(*old(self)),
            registered == (0 <= channel < 64 && block@.len() >= 64),
            !registered ==> final(self).sound@ == old(self).sound@,
            registered ==> exists|a: AudioAsset|
                {
                    &&& a.archive@ == "<vm-memory>"@
                    &&& a.file@ == "SoundA0_28_"@ + decimal(channel as nat)
                    &&& final(self).sound@ == old(self).sound@.install_sound(
                        channel,
                        SoundSlot {
                            asset: a,
                            loop_asset: None,
                            looped: false,
                            decode_gain_fixed,
                            playback_rate_fixed,
                            panning: None,
                            native_start_parameter,
                            needs_restart: true,
                        },
                    )
                },
    {
        if channel < 0 || channel >= 64 || block.len() < 64 {
            return false;
        }
        let mut name = chars_of("SoundA0_28_");
        let mut digits = u32_decimal(channel as u32);
        name.append(&mut digits);
        let asset = AudioAsset { archive: string_of(&chars_of("<vm-memory>")), file: string_of(&name) };
        let ghost a = asset;
        let loaded = self.load_native_sound_slot(
            channel,
            Some(asset),
            decode_gain_fixed,
            playback_rate_fixed,
            native_start_parameter,
        );
        assert(a.archive@ == "<vm-memory>"@ && a.file@ == "SoundA0_28_"@ + decimal(channel as nat));
        loaded
    }
}


/// The CD device's play request for a track: full gain and rate, centred,
/// from the start.
pub open spec fn cd_play_command(asset: AudioAsset) -> AudioCommand {
    AudioCommand::Play {
        asset,
        loop_asset: None,
        channel: NATIVE_CD_AUDIO_CHANNEL,
        looped: false,
        volume: 128,
        decode_gain_fixed: 0x10000,
        playback_rate_fixed: 0x10000,
        panning: None,
        restart: true,
    }
}


impl SoundModel {
    /// The device's public mode while it is open.
    pub open spec fn cd_mode(self) -> Option<i32> {
        if self.cd.opened {
            Some(self.cd.mode)
        } else {
            None
        }
    }

    /// Opening the device over `tracks` (see
    /// [`RuntimeTraceApi::open_native_cd_audio`]); with the result.
    pub open spec fn open_cd(self, tracks: Map<u8, AudioAsset>) -> (SoundModel, bool) {
        if self.cd.opened {
            (self, true)
        } else if tracks.len() == 0 {
            (SoundModel { cd: closed_cd(), ..self }, false)
        } else {
            (
                SoundModel {
                    cd: CdModel { opened: true, mode: 3, current_track: None, notify_requested: false, tracks },
                    ..self
                },
                true,
            )
        }
    }

    /// Closing the device; with the result.
    pub open spec fn close_cd(self) -> (SoundModel, bool) {
        if self.cd.opened {
            (
                SoundModel {
                    cd: closed_cd(),
                    ..self.push_audio(AudioCommand::Stop { channel: NATIVE_CD_AUDIO_CHANNEL })
                },
                true,
            )
        } else {
            (self, false)
        }
    }

    /// Playing track `track` (its low byte) with notify option `option`;
    /// with the result.
    pub open spec fn play_cd(self, track: i32, option: i32) -> (SoundModel, bool) {
        let cd = self.cd;
        let t = track as u8;
        if !cd.opened || cd.tracks.len() == 0 {
            (self, false)
        } else {
            let selected = CdModel { current_track: Some(t), notify_requested: option != 0, ..cd };
            if cd.tracks.contains_key(t) {
                (
                    SoundModel {
                        cd: CdModel { mode: 2, ..selected },
                        ..self.push_audio(cd_play_command(cd.tracks[t]))
                    },
                    true,
                )
            } else {
                (SoundModel { cd: selected, ..self }, false)
            }
        }
    }

    /// Stopping the device; with the result.
    pub open spec fn stop_cd(self) -> (SoundModel, bool) {
        if self.cd.opened {
            (
                SoundModel {
                    cd: CdModel { mode: 3, ..self.cd },
                    ..self.push_audio(AudioCommand::Stop { channel: NATIVE_CD_AUDIO_CHANNEL })
                },
                true,
            )
        } else {
            (self, false)
        }
    }

    /// Starting a resident BGM buffer that waits for its first start (see
    /// [`RuntimeTraceApi::play_loaded_native_bgm`]); with the result.
    pub open spec fn play_loaded_bgm(self, channel: i32) -> (SoundModel, bool) {
        if !self.bgm_slots.contains_key(channel) {
            (self, false)
        } else {
            let slot = self.bgm_slots[channel];
            let m = SoundModel {
                bgm_slots: self.bgm_slots.insert(channel, SoundSlot { needs_restart: false, ..slot }),
                ..self
            };
            if slot.needs_restart {
                (m.push_audio(play_command(slot, channel, bgm_effective(m, channel), true)), true)
            } else {
                (m, false)
            }
        }
    }
}

/// Whether some candidate has track number `t`.
pub open spec fn has_track(candidates: Seq<(u8, AudioAsset)>, t: u8) -> bool {
    exists|i: int| 0 <= i < candidates.len() && #[trigger] candidates[i].0 == t
}

/// The asset of the first candidate with track number `t`.
pub open spec fn first_track_asset(candidates: Seq<(u8, AudioAsset)>, t: u8) -> AudioAsset
    decreases candidates.len(),
{
    if candidates.len() == 0 {
        arbitrary()
    } else if candidates[0].0 == t {
        candidates[0].1
    } else {
        first_track_asset(candidates.drop_first(), t)
    }
}

proof fn lemma_first_track_step(candidates: Seq<(u8, AudioAsset)>, n: int, t: u8)
    requires
        0 <= n < candidates.len(),
    ensures
        has_track(candidates.take(n + 1), t) == (has_track(candidates.take(n), t) || candidates[n].0
            == t),
        has_track(candidates.take(n), t) ==> first_track_asset(candidates.take(n + 1), t)
            == first_track_asset(candidates.take(n), t),
        !has_track(candidates.take(n), t) && candidates[n].0 == t ==> first_track_asset(
            candidates.take(n + 1),
            t,
        ) == candidates[n].1,
    decreases n,
{
    let a = candidates.take(n);
    let b = candidates.take(n + 1);
    if has_track(b, t) {
        let i = choose|i: int| 0 <= i < b.len() && #[trigger] b[i].0 == t;
        if i < n {
            assert(a[i].0 == t);
        }
    }
    if has_track(a, t) {
        let i = choose|i: int| 0 <= i < a.len() && #[trigger] a[i].0 == t;
        assert(b[i].0 == t);
    }
    if candidates[n].0 == t {
        assert(b[n].0 == t);
    }
    if n > 0 {
        lemma_first_track_step(candidates.drop_first(), n - 1, t);
        assert(candidates.drop_first().take(n - 1) =~= a.drop_first());
        assert(candidates.drop_first().take(n) =~= b.drop_first());
        if has_track(a, t) && a[0].0 != t {
            let i = choose|i: int| 0 <= i < a.len() && #[trigger] a[i].0 == t;
            assert(a.drop_first()[i - 1].0 == t);
        }
        if !has_track(a, t) && a.drop_first().len() > 0 {
            assert forall|i: int| 0 <= i < a.drop_first().len() implies #[trigger] a.drop_first()[i].0 != t by {
                assert(a[i + 1] == a.drop_first()[i]);
            }
        }
    }
}

/// The virtual CD's tracks from candidate files in the order the host found
/// them: each track number takes the first candidate that carries it.
pub fn collect_cd_tracks(candidates: Vec<(u8, AudioAsset)>) -> (tracks: HashMap<u8, AudioAsset>)
    ensures
        forall|t: u8| #[trigger] tracks@.contains_key(t) == has_track(candidates@, t),
        forall|t: u8| #[trigger] tracks@.contains_key(t) ==> tracks@[t] == first_track_asset(candidates@, t),
{
    broadcast use vstd::std_specs::hash::group_hash_axioms;

    let ghost all = candidates@;
    let mut tracks: HashMap<u8, AudioAsset> = HashMap::new();
    let mut n: usize = 0;
    while n < candidates.len()
        invariant
            all == candidates@,
            n <= all.len(),
            forall|t: u8| #[trigger] tracks@.contains_key(t) == has_track(all.take(n as int), t),
            forall|t: u8|
                #[trigger] tracks@.contains_key(t) ==> tracks@[t] == first_track_asset(all.take(n as int), t),
        decreases all.len() - n,
    {
        let t = candidates[n].0;
        proof {
            assert forall|u: u8| true implies {
                &&& has_track(all.take(n as int + 1), u) == (has_track(all.take(n as int), u)
                    || all[n as int].0 == u)
                &&& has_track(all.take(n as int), u) ==> first_track_asset(all.take(n as int + 1), u)
                    == first_track_asset(all.take(n as int), u)
                &&& !has_track(all.take(n as int), u) && all[n as int].0 == u ==> first_track_asset(
                    all.take(n as int + 1),
                    u,
                ) == all[n as int].1
            } by {
                lemma_first_track_step(all, n as int, u);
            }
        }
        if !tracks.contains_key(&t) {
            tracks.insert(t, candidates[n].1.duplicate());
        }
        n += 1;
    }
    assert(all.take(all.len() as int) =~= all);
    tracks
}

/// A primary or secondary BGM gain bank set (clamped to `0..=128`) and the
/// channel's gain applied at once; other channels change nothing.
pub open spec fn bgm_gain_spec(m: SoundModel, channel: i32, volume: i32, primary: bool) -> SoundModel {
    if !bgm_channel(channel) {
        m
    } else {
        (if primary {
            SoundModel { bgm_primary: m.bgm_primary.update(channel as int, clamp_volume(volume)), ..m }
        } else {
            SoundModel { bgm_secondary: m.bgm_secondary.update(channel as int, clamp_volume(volume)), ..m }
        }).apply_bgm_volume(channel, 0)
    }
}

/// The same for an effect channel's gain banks.
pub open spec fn sound_gain_spec(m: SoundModel, channel: i32, volume: i32, primary: bool) -> SoundModel {
    if !sound_channel(channel) {
        m
    } else {
        (if primary {
            SoundModel { sound_primary: m.sound_primary.update(channel as int, clamp_volume(volume)), ..m }
        } else {
            SoundModel {
                sound_secondary: m.sound_secondary.update(channel as int, clamp_volume(volume)),
                ..m
            }
        }).apply_sound_volume(channel, 0)
    }
}

/// Pausing (action 0) or starting a loaded BGM channel: the first start
/// after a load plays from the start, later ones resume; unknown channels
/// change nothing.
pub open spec fn control_bgm_spec(m: SoundModel, channel: i32, action: i32) -> SoundModel {
    if !m.bgm_slots.contains_key(channel) {
        m
    } else if action == 0 {
        m.push_audio(AudioCommand::Pause { channel, paused: true }).set_bgm_active(channel, false).pause_bgm_clock(
            channel,
            true,
        )
    } else {
        let slot = m.bgm_slots[channel];
        let latched = SoundModel {
            bgm_slots: m.bgm_slots.insert(channel, SoundSlot { needs_restart: false, ..slot }),
            ..m
        };
        if slot.needs_restart {
            latched.push_audio(play_command(slot, channel, bgm_effective(latched, channel), true)).set_bgm_active(
                channel,
                true,
            ).start_bgm_clock(channel, 0x10000)
        } else {
            latched.push_audio(AudioCommand::Pause { channel, paused: false }).set_bgm_active(
                channel,
                true,
            ).pause_bgm_clock(channel, false)
        }
    }
}

/// A BGM panning change: stored in the channel's slot when it has one, and
/// always sent.
pub open spec fn bgm_panning_spec(m: SoundModel, channel: i32, pan: i32) -> SoundModel {
    let m1 = if m.bgm_slots.contains_key(channel) {
        SoundModel {
            bgm_slots: m.bgm_slots.insert(channel, SoundSlot { panning: Some(pan), ..m.bgm_slots[channel] }),
            ..m
        }
    } else {
        m
    };
    m1.push_audio(AudioCommand::SetPanning { channel, panning: Some(pan) })
}

/// Starting a resident effect buffer: the play volume is set; a loaded slot
/// takes the panning, consumes its restart latch, plays and is marked
/// active, and its clock starts when it restarts or was idle.
pub open spec fn start_slot_spec(m0: SoundModel, channel: i32, volume: i32, pan: i32) -> SoundModel {
    let m = m0.set_sound_play(channel, volume);
    if m.sound_slots.contains_key(channel) {
        let old_slot = m.sound_slots[channel];
        let restart = old_slot.needs_restart;
        let slot = SoundSlot { panning: Some(pan), needs_restart: false, ..old_slot };
        let was_active = sound_channel(channel) && m.sound_active[channel as int];
        let played = SoundModel { sound_slots: m.sound_slots.insert(channel, slot), ..m }.push_audio(
            play_command(slot, (0x100 + channel) as i32, sound_effective(m, channel), restart),
        ).set_sound_active(channel, true);
        if restart || !was_active {
            played.start_sound_clock(channel, slot.playback_rate_fixed)
        } else {
            played
        }
    } else {
        m
    }
}

/// Freeing a resident effect buffer: playback is released and the slot
/// removed.
pub open spec fn free_slot_spec(m: SoundModel, channel: i32) -> SoundModel {
    SoundModel { sound_slots: m.release_sound(channel).sound_slots.remove(channel), ..m.release_sound(channel) }
}

impl RuntimeTraceApi {
    /// Opens the virtual CD device over the tracks the host found. An open
    /// device stays as it is (success); with no tracks the device is reset
    /// closed (failure); otherwise it opens stopped with no track selected.
    pub fn open_native_cd_audio(&mut self, tracks: HashMap<u8, AudioAsset>) -> (opened: bool)
        ensures
            final(self).same_outside_sound(*old(self)),
            (final(self).sound@, opened) == old(self).sound@.open_cd(tracks@),
    {
        broadcast use vstd::std_specs::hash::group_hash_axioms;

        if self.sound.native_cd_audio.opened {
            return true;
        }
        if tracks.len() == 0 {
            self.sound.native_cd_audio = NativeCdAudioState::closed();
            assert(self.sound@ =~= SoundModel { cd: closed_cd(), ..old(self).sound@ });
            return false;
        }
        self.sound.native_cd_audio = NativeCdAudioState {
            opened: true,
            mode: 3,
            current_track: None,
            notify_requested: false,
            tracks,
        };
        true
    }

    /// Closes the virtual CD device, stopping its channel. False (and no
    /// change) when it was not open.
    pub fn close_native_cd_audio(&mut self) -> (closed: bool)
        ensures
            final(self).same_outside_sound(*old(self)),
            (final(self).sound@, closed) == old(self).sound@.close_cd(),
    {
        if !self.sound.native_cd_audio.opened {
            return false;
        }
        self.sound.audio_requests.push_back(AudioCommand::Stop { channel: NATIVE_CD_AUDIO_CHANNEL });
        self.sound.native_cd_audio = NativeCdAudioState::closed();
        assert(self.sound@ =~= SoundModel {
            cd: closed_cd(),
            ..old(self).sound@.push_audio(AudioCommand::Stop { channel: NATIVE_CD_AUDIO_CHANNEL })
        });
        true
    }

    /// Plays a one-based TMSF track (its low byte, as the device truncates
    /// it). On an open device with tracks the track and notify option are
    /// recorded first; a known track is then played and the mode becomes 2.
    /// True when it plays.
    pub fn play_native_cd_track(&mut self, track: i32, option: i32) -> (played: bool)
        ensures
            final(self).same_outside_sound(*old(self)),
            (final(self).sound@, played) == old(self).sound@.play_cd(track, option),
    {
        broadcast use vstd::std_specs::hash::group_hash_axioms;

        if !self.sound.native_cd_audio.opened || self.sound.native_cd_audio.tracks.len() == 0 {
            return false;
        }
        let t = track as u8;
        self.sound.native_cd_audio.current_track = Some(t);
        self.sound.native_cd_audio.notify_requested = option != 0;
        let asset = match self.sound.native_cd_audio.tracks.get(&t) {
            Some(a) => a.duplicate(),
            None => {
                return false;
            },
        };
        self.sound.audio_requests.push_back(
            AudioCommand::Play {
                asset,
                loop_asset: None,
                channel: NATIVE_CD_AUDIO_CHANNEL,
                looped: false,
                volume: 128,
                decode_gain_fixed: 0x10000,
                playback_rate_fixed: 0x10000,
                panning: None,
                restart: true,
            },
        );
        self.sound.native_cd_audio.mode = 2;
        true
    }

    /// Stops the virtual CD device (mode 3). False (and no change) when it
    /// was not open.
    pub fn stop_native_cd_audio(&mut self) -> (stopped: bool)
        ensures
            final(self).same_outside_sound(*old(self)),
            (final(self).sound@, stopped) == old(self).sound@.stop_cd(),
    {
        if !self.sound.native_cd_audio.opened {
            return false;
        }
        self.sound.audio_requests.push_back(AudioCommand::Stop { channel: NATIVE_CD_AUDIO_CHANNEL });
        self.sound.native_cd_audio.mode = 3;
        true
    }

    /// The device's public mode while it is open.
    pub fn query_native_cd_audio_mode(&self) -> (mode: Option<i32>)
        ensures
            mode == self.sound@.cd_mode(),
    {
        if self.sound.native_cd_audio.opened {
            Some(self.sound.native_cd_audio.mode)
        } else {
            None
        }
    }
}


impl RuntimeTraceApi {
    /// The BGM control call: action 0 pauses a resident buffer; any other
    /// action starts a buffer waiting for its first start, or else resumes
    /// a resident one. An unknown channel is left untouched.
    pub fn control_native_bgm(&mut self, channel: i32, action: i32)
        ensures
            final(self).same_outside_sound(*old(self)),
            final(self).sound@ == control_bgm_spec(old(self).sound@, channel, action),
    {
        broadcast use vstd::std_specs::hash::group_hash_axioms;

        if action == 0 {
            if self.sound.bgm_slots.contains_key(&channel) {
                self.sound.audio_requests.push_back(AudioCommand::Pause { channel, paused: true });
                set_bgm_channel_active(&mut self.sound.bgm_channel_active, channel, false);
                assert(self.sound@ =~= old(self).sound@.push_audio(
                    AudioCommand::Pause { channel, paused: true },
                ).set_bgm_active(channel, false));
                self.set_bgm_clock_paused(channel, true);
            }
        } else if self.play_loaded_native_bgm(channel) {
            let ghost mid = self.sound@;
            set_bgm_channel_active(&mut self.sound.bgm_channel_active, channel, true);
            assert(self.sound@ =~= mid.set_bgm_active(channel, true));
            self.start_bgm_clock(channel, 0x10000);
        } else if self.sound.bgm_slots.contains_key(&channel) {
            let ghost mid = self.sound@;
            self.sound.audio_requests.push_back(AudioCommand::Pause { channel, paused: false });
            set_bgm_channel_active(&mut self.sound.bgm_channel_active, channel, true);
            assert(self.sound@ =~= mid.push_audio(AudioCommand::Pause { channel, paused: false }).set_bgm_active(
                channel,
                true,
            ));
            self.set_bgm_clock_paused(channel, false);
        }
    }

    /// Sets a BGM channel's native pan: kept on its resident buffer, if any,
    /// and sent to the backend either way.
    pub fn set_native_bgm_panning(&mut self, channel: i32, pan: i32)
        ensures
            final(self).same_outside_sound(*old(self)),
            final(self).sound@ == bgm_panning_spec(old(self).sound@, channel, pan),
    {
        broadcast use vstd::std_specs::hash::group_hash_axioms;

        let found = match self.sound.bgm_slots.get(&channel) {
            Some(s) => Some(s.duplicate()),
            None => None,
        };
        if let Some(mut slot) = found {
            slot.panning = Some(pan);
            self.sound.bgm_slots.insert(channel, slot);
        }
        let ghost mid = self.sound@;
        self.sound.audio_requests.push_back(AudioCommand::SetPanning { channel, panning: Some(pan) });
        assert(self.sound@ =~= mid.push_audio(AudioCommand::SetPanning { channel, panning: Some(pan) }));
    }

    /// The effect start call: sets the play gain, then plays a resident
    /// buffer with native pan `pan`, consuming its restart latch (the
    /// request says whether to restart); the clock starts when the buffer
    /// restarts or the channel was idle.
    pub fn start_native_sound_slot(&mut self, channel: i32, volume: i32, pan: i32)
        requires
            channel <= i32::MAX - 0x100,
        ensures
            final(self).same_outside_sound(*old(self)),
            final(self).sound@ == start_slot_spec(old(self).sound@, channel, volume, pan),
    {
        broadcast use vstd::std_specs::hash::group_hash_axioms;

        self.set_native_sound_play_volume(channel, volume);
        let ghost m = self.sound@;
        let mut slot = match self.sound.sound_slots.get(&channel) {
            Some(s) => s.duplicate(),
            None => {
                return;
            },
        };
        let restart = slot.needs_restart;
        slot.needs_restart = false;
        slot.panning = Some(pan);
        let kept = slot.duplicate();
        self.sound.sound_slots.insert(channel, kept);
        let was_active = 0 <= channel && channel < 64 && self.sound.sound_channel_active[channel as usize];
        let effective = self.native_sound_effective_volume(channel);
        let rate = slot.playback_rate_fixed;
        self.sound.audio_requests.push_back(
            AudioCommand::Play {
                asset: slot.asset,
                loop_asset: slot.loop_asset,
                channel: native_se_audio_channel(channel),
                looped: slot.looped,
                volume: effective,
                decode_gain_fixed: slot.decode_gain_fixed,
                playback_rate_fixed: slot.playback_rate_fixed,
                panning: slot.panning,
                restart,
            },
        );
        set_sound_channel_active(&mut self.sound.sound_channel_active, channel, true);
        proof {
            let s2 = SoundSlot { panning: Some(pan), needs_restart: false, ..m.sound_slots[channel] };
            assert(self.sound@ =~= SoundModel {
                sound_slots: m.sound_slots.insert(channel, s2),
                ..m
            }.push_audio(
                play_command(s2, (0x100 + channel) as i32, sound_effective(m, channel), restart),
            ).set_sound_active(channel, true));
        }
        if restart || !was_active {
            self.start_sound_clock(channel, rate);
        }
    }

    /// Releases a resident effect buffer: playback is stopped and the buffer
    /// freed.
    pub fn free_native_sound_slot(&mut self, channel: i32)
        requires
            channel <= i32::MAX - 0x100,
        ensures
            final(self).same_outside_sound(*old(self)),
            final(self).sound@ == free_slot_spec(old(self).sound@, channel),
    {
        broadcast use vstd::std_specs::hash::group_hash_axioms;

        self.release_native_sound_playback(channel);
        let ghost mid = self.sound@;
        let _ = self.sound.sound_slots.remove(&channel);
        assert(self.sound@ =~= SoundModel { sound_slots: mid.sound_slots.remove(channel), ..mid });
    }

    /// The legacy play-a-file call: the resolved file is loaded into effect
    /// channel 63 and, when that worked, played at full gain, centred (pan
    /// 64). 1 when it loaded, else 0.
    pub fn play_native_sound_file(&mut self, resolved: Option<AudioAsset>) -> (status: i32)
        ensures
            final(self).same_outside_sound(*old(self)),
            status == (if resolved is Some { 1i32 } else { 0i32 }),
            resolved is None ==> final(self).sound@ == old(self).sound@,
            resolved matches Some(a) ==> final(self).sound@ == old(self).sound@.install_sound(
                63,
                SoundSlot {
                    asset: a,
                    loop_asset: None,
                    looped: false,
                    decode_gain_fixed: 0x10000,
                    playback_rate_fixed: 0x10000,
                    panning: None,
                    native_start_parameter: 0,
                    needs_restart: true,
                },
            ).play_slot(63, 128, 64),
    {
        let loaded = self.load_native_sound_slot(63, resolved, 0x10000, 0x10000, 0);
        if loaded {
            self.play_native_sound_slot(63, 128, 64);
            1
        } else {
            0
        }
    }
}


/// The mixed gain stays within `0..=128`: silent when any factor is 0, full
/// scale when every factor is at least 128.
pub proof fn law_mixer_level_bounds(factors: Seq<u8>)
    requires
        factors.len() == 4,
    ensures
        0 <= mixer_level(factors) <= 128,
        (factors[0] == 0 || factors[1] == 0 || factors[2] == 0 || factors[3] == 0) ==> mixer_level(factors) == 0,
        (factors[0] >= 128 && factors[1] >= 128 && factors[2] >= 128 && factors[3] >= 128) ==> mixer_level(
            factors,
        ) == 128,
{
}

/// Raising any attenuation factor never lowers the mixed gain.
pub proof fn law_mixer_level_monotone(a: Seq<u8>, b: Seq<u8>)
    requires
        a.len() == 4,
        b.len() == 4,
        forall|i: int| 0 <= i < 4 ==> a[i] <= b[i],
    ensures
        mixer_level(a) <= mixer_level(b),
{
    assert(a[0] <= b[0] && a[1] <= b[1] && a[2] <= b[2] && a[3] <= b[3]);
    if !(a[0] == 0 || a[1] == 0 || a[2] == 0 || a[3] == 0) {
        let da = factor_deficit(a[0]) + factor_deficit(a[1]) + factor_deficit(a[2]) + factor_deficit(a[3]);
        let db = factor_deficit(b[0]) + factor_deficit(b[1]) + factor_deficit(b[2]) + factor_deficit(b[3]);
        assert(0 <= db <= da);
        assert(db * 3 / 8 <= da * 3 / 8) by (nonlinear_arith)
            requires
                0 <= db <= da,
        ;
    }
}

/// Opening a closed device over some tracks leaves it open and stopped
/// (mode 3), with no track selected.
pub proof fn law_cd_open_reports_stopped(m: SoundModel, tracks: Map<u8, AudioAsset>)
    requires
        !m.cd.opened,
        tracks.len() > 0,
    ensures
        m.open_cd(tracks).1,
        m.open_cd(tracks).0.cd_mode() == Some(3i32),
        m.open_cd(tracks).0.cd.current_track is None,
        m.open_cd(tracks).0.audio_requests == m.audio_requests,
{
}

/// Opening an open device succeeds and changes nothing, whatever tracks are
/// offered.
pub proof fn law_cd_open_is_idempotent(m: SoundModel, first: Map<u8, AudioAsset>, second: Map<u8, AudioAsset>)
    requires
        first.len() > 0,
    ensures
        m.open_cd(first).0.open_cd(second) == (m.open_cd(first).0, true),
{
}

/// Playing a known track on an open device reports playing (mode 2) with
/// that track selected and queues its play request; stopping then reports
/// stopped (mode 3) and queues a stop of the CD channel.
pub proof fn law_cd_play_then_stop(m: SoundModel, track: i32, option: i32)
    requires
        m.cd.opened,
        m.cd.tracks.dom().finite(),
        m.cd.tracks.contains_key(track as u8),
    ensures
        ({
            let (m1, played) = m.play_cd(track, option);
            let (m2, stopped) = m1.stop_cd();
            &&& played
            &&& m1.cd_mode() == Some(2i32)
            &&& m1.cd.current_track == Some(track as u8)
            &&& m1.audio_requests == m.audio_requests.push(cd_play_command(m.cd.tracks[track as u8]))
            &&& stopped
            &&& m2.cd_mode() == Some(3i32)
            &&& m2.audio_requests == m1.audio_requests.push(AudioCommand::Stop { channel: NATIVE_CD_AUDIO_CHANNEL })
        }),
{
    assert(m.cd.tracks.dom().contains(track as u8));
    assert(m.cd.tracks.len() > 0) by {
        vstd::set_lib::lemma_set_empty_equivalency_len(m.cd.tracks.dom());
    }
}

/// After closing, the device answers no mode query, and closing reports
/// whether it had been open.
pub proof fn law_cd_close_ends_queries(m: SoundModel)
    ensures
        m.close_cd().0.cd_mode() is None,
        m.close_cd().1 == m.cd.opened,
{
}

/// Loading a BGM buffer never starts it: the channel is stopped and marked
/// idle. The first start plays the loaded buffer from the start; a second
/// start finds the restart latch consumed and changes nothing.
pub proof fn law_bgm_load_waits_for_one_start(
    m: SoundModel,
    channel: i32,
    asset: AudioAsset,
    loop_asset: Option<AudioAsset>,
    looped: bool,
    panning: Option<i32>,
)
    requires
        m.bgm_active.len() == BGM_CHANNELS,
    ensures
        ({
            let slot = fresh_bgm_slot(asset, loop_asset, looped, panning);
            let m1 = m.install_bgm(channel, slot);
            let (m2, first) = m1.play_loaded_bgm(channel);
            let (m3, second) = m2.play_loaded_bgm(channel);
            &&& bgm_channel(channel) ==> !m1.bgm_active[channel as int]
            &&& m1.audio_requests == m.audio_requests.push(AudioCommand::Stop { channel })
            &&& first
            &&& m2.audio_requests.last() == play_command(slot, channel, bgm_effective(m2, channel), true)
            &&& !second
            &&& m3 == m2
        }),
{
    let slot = fresh_bgm_slot(asset, loop_asset, looped, panning);
    let m1 = m.install_bgm(channel, slot);
    assert(m1.bgm_slots.contains_key(channel));
    assert(m1.bgm_slots[channel] == slot);
    let (m2, first) = m1.play_loaded_bgm(channel);
    assert(m2.bgm_slots[channel].needs_restart == false);
    let (m3, second) = m2.play_loaded_bgm(channel);
    assert(m3.bgm_slots =~= m2.bgm_slots);
    assert(m3 =~= m2);
}


/// Work a sound call leaves to the host: loading from the archives, the
/// playback clocks, the CD track files and the call frame.
#[derive(Debug)]
pub enum SoundRequest {
    /// Resolve `file` (in `archive`, any archive when empty) and hand it to
    /// [`RuntimeTraceApi::complete_bgm_load`].
    LoadBgm { channel: i32, archive: String, file: String, looped: bool, volume: i32, pan: Option<i32> },
    /// Resolve the intro and the loop stream ([`native_bgm_loop_file`]) and
    /// hand them to [`RuntimeTraceApi::complete_bgm_pair_load`].
    LoadBgmPair {
        channel: i32,
        archive: String,
        intro_file: String,
        loop_file: String,
        looped: bool,
        volume: i32,
        pan: i32,
    },
    /// Resolve `file` in `archive` and hand it to
    /// [`RuntimeTraceApi::load_native_sound_slot`]; the call's result is a
    /// load process handle and the load procedure completes with the
    /// outcome.
    LoadSound {
        channel: i32,
        archive: String,
        file: String,
        decode_gain_fixed: i32,
        playback_rate_fixed: i32,
        native_start_parameter: i32,
    },
    /// Resolve `file` in any archive and hand it to
    /// [`RuntimeTraceApi::play_native_sound_file`], whose status is the
    /// call's result.
    PlayFile { file: String },
    /// Find the CD track files and hand them to
    /// [`RuntimeTraceApi::open_native_cd_audio`].
    OpenCd,
    /// The call's result is the effect channel's playback position in
    /// milliseconds.
    SoundPosition { channel: i32 },
    /// Complete the dynamic sound registration procedure, failed or not.
    CompleteRegister { failed: bool },
}

/// A sound request with its names as character sequences.
pub enum SoundRequestModel {
    LoadBgm { channel: i32, archive: Seq<char>, file: Seq<char>, looped: bool, volume: i32, pan: Option<i32> },
    LoadBgmPair {
        channel: i32,
        archive: Seq<char>,
        intro_file: Seq<char>,
        loop_file: Seq<char>,
        looped: bool,
        volume: i32,
        pan: i32,
    },
    LoadSound {
        channel: i32,
        archive: Seq<char>,
        file: Seq<char>,
        decode_gain_fixed: i32,
        playback_rate_fixed: i32,
        native_start_parameter: i32,
    },
    PlayFile { file: Seq<char> },
    OpenCd,
    SoundPosition { channel: i32 },
    CompleteRegister { failed: bool },
}

impl View for SoundRequest {
    type V = SoundRequestModel;

    open spec fn view(&self) -> SoundRequestModel {
        match self {
            SoundRequest::LoadBgm { channel, archive, file, looped, volume, pan } => SoundRequestModel::LoadBgm {
                channel: *channel,
                archive: archive@,
                file: file@,
                looped: *looped,
                volume: *volume,
                pan: *pan,
            },
            SoundRequest::LoadBgmPair { channel, archive, intro_file, loop_file, looped, volume, pan } =>
                SoundRequestModel::LoadBgmPair {
                channel: *channel,
                archive: archive@,
                intro_file: intro_file@,
                loop_file: loop_file@,
                looped: *looped,
                volume: *volume,
                pan: *pan,
            },
            SoundRequest::LoadSound {
                channel,
                archive,
                file,
                decode_gain_fixed,
                playback_rate_fixed,
                native_start_parameter,
            } => SoundRequestModel::LoadSound {
                channel: *channel,
                archive: archive@,
                file: file@,
                decode_gain_fixed: *decode_gain_fixed,
                playback_rate_fixed: *playback_rate_fixed,
                native_start_parameter: *native_start_parameter,
            },
            SoundRequest::PlayFile { file } => SoundRequestModel::PlayFile { file: file@ },
            SoundRequest::OpenCd => SoundRequestModel::OpenCd,
            SoundRequest::SoundPosition { channel } => SoundRequestModel::SoundPosition { channel: *channel },
            SoundRequest::CompleteRegister { failed } => SoundRequestModel::CompleteRegister { failed: *failed },
        }
    }
}

/// An integer argument popped with its default.
pub open spec fn pop_or(args: Seq<NativeValue>, default: i32) -> (Seq<NativeValue>, i32) {
    (
        pop_int_spec(args).0,
        match pop_int_spec(args).1 {
            Some(v) => v,
            None => default,
        },
    )
}

/// The depth of an effect channel argument below the top of the stack, for
/// the calls that address the channel's output (`0x100 + channel`).
pub open spec fn effect_channel_depth(id: u8) -> Option<int> {
    if id == 0x22 || id == 0x25 {
        Some(0)
    } else if id == 0x26 {
        Some(1)
    } else if id == 0x20 || id == 0x24 {
        Some(2)
    } else if id == 0x21 || id == 0x23 {
        Some(4)
    } else if id == 0x27 {
        Some(5)
    } else {
        None
    }
}

/// The effect channel a call addresses leaves room for its output channel
/// number (`0x100 + channel` fits in an `i32`).
pub open spec fn sound_call_channel_fits(id: u8, args: Seq<NativeValue>) -> bool {
    match effect_channel_depth(id) {
        Some(d) => match int_at_depth(args, d) {
            Some(c) => c <= i32::MAX - 0x100,
            None => true,
        },
        None => true,
    }
}

/// A sound call (group `0xA0`): the sound state after it, the arguments it
/// leaves, its result, and the work it leaves to the host; `None` for
/// another group or an unknown call, which leave everything as it is.
pub open spec fn sound_call_spec(m: SoundModel, group: u8, id: u8, args: Seq<NativeValue>) -> Option<
    (SoundModel, Seq<NativeValue>, NativeValue, Option<SoundRequestModel>),
> {
    if group != 0xA0 {
        None
    } else if id == 0x00 {
        Some((m, args, NativeValue::Int(20), None))
    } else if id == 0x08 || id == 0x09 || id == 0x1C || id == 0x2C {
        let (a1, volume) = pop_or(args, 128);
        let (a2, channel) = pop_or(a1, 0);
        let m2 = if id == 0x08 || id == 0x1C {
            bgm_gain_spec(m, channel, volume, id == 0x08)
        } else {
            sound_gain_spec(m, channel, volume, id == 0x09)
        };
        Some((m2, a2, NativeValue::Void, None))
    } else if id == 0x10 {
        let (a1, volume) = pop_or(args, 128);
        let (a2, file) = pop_str_spec(a1);
        let (a3, channel) = pop_or(a2, 0);
        Some(
            (
                m,
                a3,
                NativeValue::Void,
                Some(
                    SoundRequestModel::LoadBgm {
                        channel,
                        archive: Seq::empty(),
                        file,
                        looped: false,
                        volume,
                        pan: None,
                    },
                ),
            ),
        )
    } else if id == 0x11 {
        let (a1, pan) = pop_or(args, 64);
        let (a2, volume) = pop_or(a1, 128);
        let (a3, file) = pop_str_spec(a2);
        let (a4, archive) = pop_str_spec(a3);
        let (a5, channel) = pop_or(a4, 0);
        Some(
            (
                m,
                a5,
                NativeValue::Void,
                Some(
                    SoundRequestModel::LoadBgm {
                        channel,
                        archive,
                        file,
                        looped: true,
                        volume,
                        pan: Some(pan),
                    },
                ),
            ),
        )
    } else if id == 0x12 {
        let (a1, pan) = pop_or(args, 64);
        let (a2, volume) = pop_or(a1, 128);
        let (a3, looped) = pop_or(a2, 0);
        let (a4, loop_file) = pop_str_spec(a3);
        let (a5, intro_file) = pop_str_spec(a4);
        let (a6, archive) = pop_str_spec(a5);
        let (a7, channel) = pop_or(a6, 0);
        Some(
            (
                m,
                a7,
                NativeValue::Void,
                Some(
                    SoundRequestModel::LoadBgmPair {
                        channel,
                        archive,
                        intro_file,
                        loop_file,
                        looped: looped != 0,
                        volume,
                        pan,
                    },
                ),
            ),
        )
    } else if id == 0x14 {
        let (a1, action) = pop_or(args, 0);
        let (a2, channel) = pop_or(a1, 0);
        Some((control_bgm_spec(m, channel, action), a2, NativeValue::Void, None))
    } else if id == 0x15 {
        let (a2, channel) = pop_or(pop_any_spec(args), 0);
        let status: i32 = if bgm_channel(channel) && m.bgm_active[channel as int] {
            0
        } else {
            1
        };
        Some((m, a2, NativeValue::Int(status), None))
    } else if id == 0x16 {
        let (a1, duration) = pop_or(args, 0);
        let (a2, volume) = pop_or(a1, 0);
        let (a3, channel) = pop_or(a2, 0);
        Some((m.set_bgm_play(channel, volume).apply_bgm_volume(channel, duration), a3, NativeValue::Void, None))
    } else if id == 0x17 {
        let (a1, pan) = pop_or(args, 64);
        let (a2, channel) = pop_or(a1, 0);
        Some((bgm_panning_spec(m, channel, pan), a2, NativeValue::Void, None))
    } else if id == 0x18 || id == 0x19 {
        let (a1, duration) = pop_or(args, 0);
        let (a2, channel) = pop_or(a1, 0);
        let level: i32 = if id == 0x18 {
            128
        } else {
            0
        };
        Some((m.set_bgm_fade(channel, level).apply_bgm_volume(channel, duration), a2, NativeValue::Void, None))
    } else if id == 0x20 {
        let (a1, file) = pop_str_spec(args);
        let (a2, archive) = pop_str_spec(a1);
        let (a3, channel) = pop_or(a2, 0);
        Some(
            (
                m,
                a3,
                NativeValue::Void,
                Some(
                    SoundRequestModel::LoadSound {
                        channel,
                        archive,
                        file,
                        decode_gain_fixed: 0x10000,
                        playback_rate_fixed: 0x10000,
                        native_start_parameter: 0,
                    },
                ),
            ),
        )
    } else if id == 0x21 || id == 0x23 || id == 0x27 {
        let (a0, rate) = if id == 0x27 {
            pop_or(args, 0x10000)
        } else {
            (args, if id == 0x23 { 0x20000i32 } else { 0x10000i32 })
        };
        let (a1, gain) = pop_or(a0, 0x10000);
        let (a2, start) = pop_or(a1, 0);
        let (a3, file) = pop_str_spec(a2);
        let (a4, archive) = pop_str_spec(a3);
        let (a5, channel) = pop_or(a4, 0);
        Some(
            (
                m,
                a5,
                NativeValue::Void,
                Some(
                    SoundRequestModel::LoadSound {
                        channel,
                        archive,
                        file,
                        decode_gain_fixed: gain,
                        playback_rate_fixed: rate,
                        native_start_parameter: start,
                    },
                ),
            ),
        )
    } else if id == 0x22 {
        let (a1, channel) = pop_or(args, 0);
        Some((free_slot_spec(m, channel), a1, NativeValue::Void, None))
    } else if id == 0x24 {
        let (a1, pan) = pop_or(args, 64);
        let (a2, volume) = pop_or(a1, 128);
        let (a3, channel) = pop_or(a2, 0);
        Some(
            (
                start_slot_spec(m, channel, volume, pan),
                a3,
                NativeValue::Void,
                Some(SoundRequestModel::SoundPosition { channel }),
            ),
        )
    } else if id == 0x25 {
        let (a1, channel) = pop_or(args, 0);
        Some((m.release_sound(channel), a1, NativeValue::Void, None))
    } else if id == 0x26 {
        let (a1, duration) = pop_or(args, 0);
        let (a2, channel) = pop_or(a1, 0);
        Some((m.set_sound_fade(channel, 0).apply_sound_volume(channel, duration), a2, NativeValue::Void, None))
    } else if id == 0x28 {
        let (a1, _rate) = pop_or(args, 0x10000);
        let (a2, _gain) = pop_or(a1, 0x10000);
        let (a3, _descriptor) = pop_or(a2, 0);
        let source = a3.len() > 0;
        let (a5, channel) = pop_or(pop_any_spec(a3), 0);
        Some(
            (
                m,
                a5,
                NativeValue::Void,
                Some(SoundRequestModel::CompleteRegister { failed: !(channel >= 0 && source) }),
            ),
        )
    } else if id == 0x2F {
        let (a1, channel) = pop_or(args, 0);
        Some((m, a1, NativeValue::Void, Some(SoundRequestModel::SoundPosition { channel })))
    } else if id == 0x80 {
        Some((m, args, NativeValue::Void, Some(SoundRequestModel::OpenCd)))
    } else if id == 0x81 {
        Some((m.close_cd().0, args, NativeValue::Void, None))
    } else if id == 0x84 {
        let (a1, option) = pop_or(args, 0);
        let (a2, track) = pop_or(a1, 0);
        let (m2, played) = m.play_cd(track, option);
        Some((m2, a2, NativeValue::Int(if played { 1 } else { 0 }), None))
    } else if id == 0x85 {
        Some((m.stop_cd().0, args, NativeValue::Void, None))
    } else if id == 0x86 {
        Some(
            (
                m,
                pop_any_spec(args),
                NativeValue::Int(if m.cd_mode() is Some { 1 } else { 0 }),
                None,
            ),
        )
    } else if id == 0xC0 {
        let (a1, file) = pop_str_spec(args);
        Some((m, a1, NativeValue::Void, Some(SoundRequestModel::PlayFile { file })))
    } else {
        None
    }
}

/// The sound result of a call, as a model.
pub open spec fn sound_outcome_model(out: Option<(NativeValue, Option<SoundRequest>)>) -> Option<
    (NativeValue, Option<SoundRequestModel>),
> {
    match out {
        Some((v, Some(r))) => Some((v, Some(r@))),
        Some((v, None)) => Some((v, None)),
        None => None,
    }
}

impl RuntimeTraceApi {
    /// Runs a sound call (group `0xA0`) on the arguments the script pushed:
    /// pops its arguments (missing ones take their defaults), changes the
    /// sound state, and returns its result together with the work left to
    /// the host (see [`sound_call_spec`]); `None` for another group or an
    /// unknown call.
    #[verifier::rlimit(60)]
    #[verifier::spinoff_prover]
    pub fn dispatch_native_sound(&mut self, group: u8, id: u8, args: &mut Vec<NativeValue>) -> (out: Option<
        (NativeValue, Option<SoundRequest>),
    >)
        requires
            group == 0xA0 ==> sound_call_channel_fits(id, old(args)@),
        ensures
            final(self).same_outside_sound(*old(self)),
            match (sound_call_spec(old(self).sound@, group, id, old(args)@), sound_outcome_model(out)) {
                (Some((m, a, v, r)), Some((ov, or))) => final(self).sound@ == m && final(args)@ == a && ov
                    == v && or == r,
                (None, None) => final(self).sound@ == old(self).sound@ && final(args)@ == old(args)@,
                _ => false,
            },
    {
        if group != 0xA0 {
            return None;
        }
        if id == 0x00 {
            Some((NativeValue::Int(20), None))
        } else if id == 0x08 || id == 0x09 || id == 0x1C || id == 0x2C {
            let volume = pop_int_value(args, 128);
            let channel = pop_int_value(args, 0);
            if id == 0x08 || id == 0x1C {
                self.set_native_bgm_gain_bank(channel, volume, id == 0x08);
            } else {
                self.set_native_sound_gain_bank(channel, volume, id == 0x09);
            }
            Some((NativeValue::Void, None))
        } else if id == 0x10 {
            let volume = pop_int_value(args, 128);
            let file = pop_string_value(args);
            let channel = pop_int_value(args, 0);
            Some(
                (
                    NativeValue::Void,
                    Some(
                        SoundRequest::LoadBgm {
                            channel,
                            archive: String::new(),
                            file,
                            looped: false,
                            volume,
                            pan: None,
                        },
                    ),
                ),
            )
        } else if id == 0x11 {
            let pan = pop_int_value(args, 64);
            let volume = pop_int_value(args, 128);
            let file = pop_string_value(args);
            let archive = pop_string_value(args);
            let channel = pop_int_value(args, 0);
            Some(
                (
                    NativeValue::Void,
                    Some(SoundRequest::LoadBgm { channel, archive, file, looped: true, volume, pan: Some(pan) }),
                ),
            )
        } else if id == 0x12 {
            let pan = pop_int_value(args, 64);
            let volume = pop_int_value(args, 128);
            let looped = pop_int_value(args, 0);
            let loop_file = pop_string_value(args);
            let intro_file = pop_string_value(args);
            let archive = pop_string_value(args);
            let channel = pop_int_value(args, 0);
            Some(
                (
                    NativeValue::Void,
                    Some(
                        SoundRequest::LoadBgmPair {
                            channel,
                            archive,
                            intro_file,
                            loop_file,
                            looped: looped != 0,
                            volume,
                            pan,
                        },
                    ),
                ),
            )
        } else if id == 0x14 {
            let action = pop_int_value(args, 0);
            let channel = pop_int_value(args, 0);
            self.control_native_bgm(channel, action);
            Some((NativeValue::Void, None))
        } else if id == 0x15 {
            let _ = pop_any_value(args);
            let channel = pop_int_value(args, 0);
            Some((NativeValue::Int(self.bgm_status(channel)), None))
        } else if id == 0x16 {
            let duration = pop_int_value(args, 0);
            let volume = pop_int_value(args, 0);
            let channel = pop_int_value(args, 0);
            self.set_native_bgm_play_volume(channel, volume);
            self.apply_native_bgm_volume(channel, duration);
            Some((NativeValue::Void, None))
        } else if id == 0x17 {
            let pan = pop_int_value(args, 64);
            let channel = pop_int_value(args, 0);
            self.set_native_bgm_panning(channel, pan);
            Some((NativeValue::Void, None))
        } else if id == 0x18 || id == 0x19 {
            let duration = pop_int_value(args, 0);
            let channel = pop_int_value(args, 0);
            self.set_native_bgm_fade_volume(channel, if id == 0x18 { 128 } else { 0 });
            self.apply_native_bgm_volume(channel, duration);
            Some((NativeValue::Void, None))
        } else if id == 0x20 {
            let file = pop_string_value(args);
            let archive = pop_string_value(args);
            let channel = pop_int_value(args, 0);
            Some(
                (
                    NativeValue::Void,
                    Some(
                        SoundRequest::LoadSound {
                            channel,
                            archive,
                            file,
                            decode_gain_fixed: 0x10000,
                            playback_rate_fixed: 0x10000,
                            native_start_parameter: 0,
                        },
                    ),
                ),
            )
        } else if id == 0x21 || id == 0x23 || id == 0x27 {
            let rate = if id == 0x27 {
                pop_int_value(args, 0x10000)
            } else if id == 0x23 {
                0x20000
            } else {
                0x10000
            };
            let gain = pop_int_value(args, 0x10000);
            let start = pop_int_value(args, 0);
            let file = pop_string_value(args);
            let archive = pop_string_value(args);
            let channel = pop_int_value(args, 0);
            Some(
                (
                    NativeValue::Void,
                    Some(
                        SoundRequest::LoadSound {
                            channel,
                            archive,
                            file,
                            decode_gain_fixed: gain,
                            playback_rate_fixed: rate,
                            native_start_parameter: start,
                        },
                    ),
                ),
            )
        } else if id == 0x22 {
            let channel = pop_int_value(args, 0);
            self.free_native_sound_slot(channel);
            Some((NativeValue::Void, None))
        } else if id == 0x24 {
            let pan = pop_int_value(args, 64);
            let volume = pop_int_value(args, 128);
            let channel = pop_int_value(args, 0);
            self.start_native_sound_slot(channel, volume, pan);
            Some((NativeValue::Void, Some(SoundRequest::SoundPosition { channel })))
        } else if id == 0x25 {
            let channel = pop_int_value(args, 0);
            self.release_native_sound_playback(channel);
            Some((NativeValue::Void, None))
        } else if id == 0x26 {
            let duration = pop_int_value(args, 0);
            let channel = pop_int_value(args, 0);
            self.set_native_sound_fade_volume(channel, 0);
            self.apply_native_sound_volume(channel, duration);
            Some((NativeValue::Void, None))
        } else if id == 0x28 {
            let _rate = pop_int_value(args, 0x10000);
            let _gain = pop_int_value(args, 0x10000);
            let _descriptor = pop_int_value(args, 0);
            let source = pop_any_value(args);
            let channel = pop_int_value(args, 0);
            Some((NativeValue::Void, Some(SoundRequest::CompleteRegister { failed: !(channel >= 0 && source) })))
        } else if id == 0x2F {
            let channel = pop_int_value(args, 0);
            Some((NativeValue::Void, Some(SoundRequest::SoundPosition { channel })))
        } else if id == 0x80 {
            Some((NativeValue::Void, Some(SoundRequest::OpenCd)))
        } else if id == 0x81 {
            let _ = self.close_native_cd_audio();
            Some((NativeValue::Void, None))
        } else if id == 0x84 {
            let option = pop_int_value(args, 0);
            let track = pop_int_value(args, 0);
            let played = self.play_native_cd_track(track, option);
            Some((NativeValue::Int(if played { 1 } else { 0 }), None))
        } else if id == 0x85 {
            let _ = self.stop_native_cd_audio();
            Some((NativeValue::Void, None))
        } else if id == 0x86 {
            let _ = pop_any_value(args);
            let open = self.query_native_cd_audio_mode().is_some();
            Some((NativeValue::Int(if open { 1 } else { 0 }), None))
        } else if id == 0xC0 {
            let file = pop_string_value(args);
            Some((NativeValue::Void, Some(SoundRequest::PlayFile { file })))
        } else {
            None
        }
    }
}


/// A BGM slot's stored panning set, when the channel has a slot.
pub open spec fn with_bgm_slot_panning(m: SoundModel, channel: i32, pan: i32) -> SoundModel {
    if m.bgm_slots.contains_key(channel) {
        SoundModel {
            bgm_slots: m.bgm_slots.insert(channel, SoundSlot { panning: Some(pan), ..m.bgm_slots[channel] }),
            ..m
        }
    } else {
        m
    }
}

/// Finishing a BGM load the host resolved: the buffer is installed when it
/// was found, the play volume is set either way, and a given panning is
/// stored in the channel's slot when it has one.
pub open spec fn bgm_load_spec(
    m: SoundModel,
    channel: i32,
    resolved: Option<AudioAsset>,
    looped: bool,
    volume: i32,
    pan: Option<i32>,
) -> SoundModel {
    let loaded = match resolved {
        Some(a) => m.install_bgm(channel, fresh_bgm_slot(a, None, looped, None)),
        None => m,
    };
    let m2 = loaded.set_bgm_play(channel, volume);
    match pan {
        Some(p) => with_bgm_slot_panning(m2, channel, p),
        None => m2,
    }
}

impl RuntimeTraceApi {
    fn store_bgm_slot_panning(&mut self, channel: i32, pan: i32)
        ensures
            final(self).same_outside_sound(*old(self)),
            final(self).sound@ == with_bgm_slot_panning(old(self).sound@, channel, pan),
    {
        broadcast use vstd::std_specs::hash::group_hash_axioms;

        let found = match self.sound.bgm_slots.get(&channel) {
            Some(s) => Some(s.duplicate()),
            None => None,
        };
        if let Some(mut slot) = found {
            slot.panning = Some(pan);
            self.sound.bgm_slots.insert(channel, slot);
        }
        assert(self.sound@ =~= with_bgm_slot_panning(old(self).sound@, channel, pan));
    }

    /// Finishes a [`SoundRequest::LoadBgm`] with the asset the host resolved
    /// (`None` when it found none); reports whether it loaded (see
    /// [`bgm_load_spec`]).
    pub fn complete_bgm_load(
        &mut self,
        channel: i32,
        resolved: Option<AudioAsset>,
        looped: bool,
        volume: i32,
        pan: Option<i32>,
    ) -> (loaded: bool)
        ensures
            final(self).same_outside_sound(*old(self)),
            loaded == resolved is Some,
            final(self).sound@ == bgm_load_spec(old(self).sound@, channel, resolved, looped, volume, pan),
    {
        let loaded = self.load_native_bgm_slot(channel, resolved, looped);
        self.set_native_bgm_play_volume(channel, volume);
        if let Some(p) = pan {
            self.store_bgm_slot_panning(channel, p);
        }
        loaded
    }

    /// Finishes a [`SoundRequest::LoadBgmPair`] with the streams the host
    /// resolved (see [`Self::load_native_bgm_pair`]); the play volume is set
    /// either way.
    pub fn complete_bgm_pair_load(
        &mut self,
        channel: i32,
        intro: Option<AudioAsset>,
        loop_asset: Option<Option<AudioAsset>>,
        looped: bool,
        volume: i32,
        pan: i32,
    ) -> (loaded: bool)
        ensures
            final(self).same_outside_sound(*old(self)),
            loaded == (intro is Some && loop_asset is Some),
            !loaded ==> final(self).sound@ == old(self).sound@.set_bgm_play(channel, volume),
            loaded ==> final(self).sound@ == old(self).sound@.install_bgm(
                channel,
                fresh_bgm_slot(intro->0, loop_asset->0, looped, Some(pan)),
            ).set_bgm_play(channel, volume),
    {
        let loaded = self.load_native_bgm_pair(channel, intro, loop_asset, looped, Some(pan));
        self.set_native_bgm_play_volume(channel, volume);
        loaded
    }
}

} // verus!
