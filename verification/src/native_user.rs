use vstd::prelude::*;
use std::collections::VecDeque;
use crate::seqs::{distinct, find_i32, first_index, lemma_first_index, lemma_first_index_unique};
use crate::runtime::RuntimeTraceApi;
use crate::text::{chars_of, decimal, string_of, u32_decimal, vec_eq};
use crate::shift_jis::{shift_jis_encoded_len, shift_jis_len};

verus! {

/// MSVC CRT `rand` state step: `seed * 214013 + 2531011` modulo 2^32.
pub open spec fn crt_next_seed(seed: u32) -> u32 {
    ((seed as int * 214_013 + 2_531_011) % 0x1_0000_0000) as u32
}

/// The value MSVC CRT `rand` reports for a stepped seed: bits 16..31 of it.
pub open spec fn crt_output(seed: u32) -> int {
    (seed as int / 0x1_0000) % 0x8000
}

/// Advances the MSVC CRT generator and returns its next value (`0..=0x7fff`).
pub fn msvc_rand(seed: &mut u32) -> (out: i32)
    ensures
        *final(seed) == crt_next_seed(*old(seed)),
        out as int == crt_output(*final(seed)),
        0 <= out <= 0x7fff,
{
    let next = ((*seed as u64 * 214_013 + 2_531_011) % 0x1_0000_0000) as u32;
    *seed = next;
    let out = ((next / 0x1_0000) % 0x8000) as i32;
    out
}


/// Integer division rounding toward zero (Rust's `/` on signed integers), for `b > 0`.
pub open spec fn tdiv(a: int, b: int) -> int {
    if a >= 0 {
        a / b
    } else {
        -((-a) / b)
    }
}

/// `x` clamped to the `i64` range.
pub open spec fn sat64(x: int) -> int {
    if x > i64::MAX {
        i64::MAX as int
    } else if x < i64::MIN {
        i64::MIN as int
    } else {
        x
    }
}

/// std's `i64::saturating_add`.
pub fn sat_add(a: i64, b: i64) -> (out: i64)
    ensures
        out == sat64(a + b),
{
    let r = a as i128 + b as i128;
    if r > i64::MAX as i128 {
        i64::MAX
    } else if r < i64::MIN as i128 {
        i64::MIN
    } else {
        r as i64
    }
}

/// std's `i64::saturating_sub`.
pub fn sat_sub(a: i64, b: i64) -> (out: i64)
    ensures
        out == sat64(a - b),
{
    let r = a as i128 - b as i128;
    if r > i64::MAX as i128 {
        i64::MAX
    } else if r < i64::MIN as i128 {
        i64::MIN
    } else {
        r as i64
    }
}

/// std's `i64::saturating_mul`.
pub fn sat_mul(a: i64, b: i64) -> (out: i64)
    ensures
        out == sat64(a * b),
{
    proof {
        assert(-0x4000_0000_0000_0000_0000_0000_0000_0000 <= a * b <= 0x4000_0000_0000_0000_0000_0000_0000_0000)
            by (nonlinear_arith)
            requires
                -0x8000_0000_0000_0000 <= a < 0x8000_0000_0000_0000,
                -0x8000_0000_0000_0000 <= b < 0x8000_0000_0000_0000,
        ;
    }
    let r = a as i128 * b as i128;
    if r > i64::MAX as i128 {
        i64::MAX
    } else if r < i64::MIN as i128 {
        i64::MIN
    } else {
        r as i64
    }
}

/// std's `i64::saturating_neg`.
pub fn sat_neg(a: i64) -> (out: i64)
    ensures
        out == sat64(-a),
{
    if a == i64::MIN {
        i64::MAX
    } else {
        -a
    }
}

/// The generator after `k` more rounds of the amplitude average, and the sum
/// of the values drawn: each round draws two values, joins them into a 30-bit
/// value and reduces it modulo `modulus`.
pub open spec fn average_rounds(seed: u32, k: nat, modulus: int) -> (int, u32)
    decreases k,
{
    if k == 0 {
        (0, seed)
    } else {
        let (total, s) = average_rounds(seed, (k - 1) as nat, modulus);
        let s1 = crt_next_seed(s);
        let s2 = crt_next_seed(s1);
        (total + (crt_output(s1) * 0x8000 + crt_output(s2)) % modulus, s2)
    }
}

/// The modulus the amplitude average reduces by.
pub open spec fn average_modulus(maximum: i64) -> int {
    if maximum + 1 > i32::MAX {
        i32::MAX as int
    } else {
        maximum + 1
    }
}

/// Average of eight reduced 30-bit CRT values for a positive amplitude, and
/// the generator afterwards; zero (generator untouched) otherwise.
pub open spec fn shake_random_average(seed: u32, maximum: i64) -> (int, u32) {
    if maximum <= 0 {
        (0, seed)
    } else {
        let (total, s) = average_rounds(seed, 8, average_modulus(maximum));
        (total / 8, s)
    }
}

pub proof fn lemma_average_rounds_bounds(seed: u32, k: nat, modulus: int)
    requires
        modulus >= 1,
    ensures
        0 <= average_rounds(seed, k, modulus).0 <= k * (modulus - 1),
    decreases k,
{
    if k > 0 {
        lemma_average_rounds_bounds(seed, (k - 1) as nat, modulus);
        let (total, s) = average_rounds(seed, (k - 1) as nat, modulus);
        let s1 = crt_next_seed(s);
        let s2 = crt_next_seed(s1);
        let x = crt_output(s1) * 0x8000 + crt_output(s2);
        vstd::arithmetic::div_mod::lemma_mod_bound(x, modulus);
        assert((k - 1) * (modulus - 1) + (modulus - 1) == k * (modulus - 1)) by (nonlinear_arith);
    }
}

/// Averages eight reduced 30-bit CRT values in `0..=maximum` (0 when `maximum <= 0`).
pub fn target_shake_random_average(seed: &mut u32, maximum: i64) -> (out: i64)
    ensures
        (out as int, *final(seed)) == shake_random_average(*old(seed), maximum),
        maximum > 0 ==> 0 <= out <= maximum,
        maximum <= 0 ==> out == 0,
{
    if maximum <= 0 {
        return 0;
    }
    let modulus: i64 = if maximum >= i32::MAX as i64 {
        i32::MAX as i64
    } else {
        maximum + 1
    };
    let mut total: i64 = 0;
    let mut round: u32 = 0;
    while round < 8
        invariant
            round <= 8,
            modulus == average_modulus(maximum),
            1 <= modulus <= i32::MAX,
            (total as int, *seed) == average_rounds(*old(seed), round as nat, modulus as int),
            0 <= total <= round * 0x7fff_ffff,
        decreases 8 - round,
    {
        let ghost prev_seed = *seed;
        let ghost prev_total = total as int;
        let high = msvc_rand(seed) as i64;
        let low = msvc_rand(seed) as i64;
        let joined = high * 0x8000 + low;
        let reduced = joined % modulus;
        proof {
            vstd::arithmetic::div_mod::lemma_mod_bound(joined as int, modulus as int);
            assert(average_rounds(*old(seed), (round + 1) as nat, modulus as int) == (
                prev_total + reduced,
                *seed,
            ));
        }
        total = total + reduced;
        round += 1;
    }
    proof {
        lemma_average_rounds_bounds(*old(seed), 8, modulus as int);
    }
    total / 8
}


/// Screen-shake procedure state. Amplitudes, scalars and random endpoints are
/// fixed point with 12 fractional bits; `offset` is the whole-pixel offset
/// (the fixed values shifted right by 12).
#[derive(Debug, Clone, Copy)]
pub struct NativeScreenShakeState {
    pub active: bool,
    pub direction_mode: i32,
    pub current_amplitude_fixed: i64,
    pub cycle_count: u32,
    pub damping_percent: i32,
    pub updates_per_second: u32,
    pub updates_per_cycle: u32,
    pub cycle_index: u32,
    pub update_index: u32,
    pub scalar_fixed: i64,
    pub step_fixed: i64,
    pub previous_random: (i64, i64),
    pub current_random: (i64, i64),
    pub random_delta: (i64, i64),
    pub elapsed_ms: u64,
    pub update_interval_ms: u64,
    pub immediate_update_pending: bool,
    pub lock_renderer: bool,
    pub offset: (i64, i64),
}

/// Random endpoints stay within the 31-bit range the averaging produces.
pub open spec fn random_ok(p: (i64, i64)) -> bool {
    -0x8000_0000 < p.0 < 0x8000_0000 && -0x8000_0000 < p.1 < 0x8000_0000
}

impl NativeScreenShakeState {
    /// The bounds the procedure arithmetic relies on: the amplitude can be
    /// negated, the random endpoints and their difference fit in 33 bits, and
    /// `100 - damping` is a valid `i32` (the damping step subtracts in `i32`).
    pub open spec fn wf(self) -> bool {
        &&& self.current_amplitude_fixed > i64::MIN
        &&& random_ok(self.previous_random)
        &&& random_ok(self.current_random)
        &&& -0x1_0000_0000 < self.random_delta.0 < 0x1_0000_0000
        &&& -0x1_0000_0000 < self.random_delta.1 < 0x1_0000_0000
        &&& 100 - self.damping_percent <= i32::MAX
        &&& self.updates_per_cycle >= 1
        &&& self.update_index < self.updates_per_cycle
    }

    /// The idle state.
    pub fn new() -> (s: Self)
        ensures
            s == Self::idle(),
    {
        NativeScreenShakeState {
            active: false,
            direction_mode: 0,
            current_amplitude_fixed: 0,
            cycle_count: 0,
            damping_percent: 0,
            updates_per_second: 60,
            updates_per_cycle: 1,
            cycle_index: 0,
            update_index: 0,
            scalar_fixed: 0,
            step_fixed: 0,
            previous_random: (0, 0),
            current_random: (0, 0),
            random_delta: (0, 0),
            elapsed_ms: 0,
            update_interval_ms: 16,
            immediate_update_pending: false,
            lock_renderer: false,
            offset: (0, 0),
        }
    }

    pub open spec fn idle() -> Self {
        NativeScreenShakeState {
            active: false,
            direction_mode: 0,
            current_amplitude_fixed: 0,
            cycle_count: 0,
            damping_percent: 0,
            updates_per_second: 60,
            updates_per_cycle: 1,
            cycle_index: 0,
            update_index: 0,
            scalar_fixed: 0,
            step_fixed: 0,
            previous_random: (0, 0),
            current_random: (0, 0),
            random_delta: (0, 0),
            elapsed_ms: 0,
            update_interval_ms: 16,
            immediate_update_pending: false,
            lock_renderer: false,
            offset: (0, 0),
        }
    }

    /// Which requests a shake accepts: a mode in `0..=3`, at least one tick
    /// per cycle, at least one cycle, and at least as many updates per second
    /// as ticks.
    pub open spec fn accepts(
        direction_mode: i32,
        oscillation_ticks: i32,
        cycle_count: i32,
        updates_per_second: i32,
    ) -> bool {
        0 <= direction_mode <= 3 && oscillation_ticks >= 1 && cycle_count >= 1
            && updates_per_second >= 1 && updates_per_second >= oscillation_ticks
    }

    /// The state a successful configuration installs.
    pub open spec fn configured(
        self,
        direction_mode: i32,
        amplitude: i32,
        oscillation_ticks: i32,
        cycle_count: i32,
        damping_percent: i32,
        updates_per_second: i32,
        lock_renderer: bool,
    ) -> Self {
        NativeScreenShakeState {
            active: true,
            direction_mode,
            current_amplitude_fixed: (amplitude * 2048) as i64,
            cycle_count: cycle_count as u32,
            damping_percent,
            updates_per_second: updates_per_second as u32,
            updates_per_cycle: (updates_per_second as int / oscillation_ticks as int) as u32,
            cycle_index: 0,
            update_index: 0,
            scalar_fixed: 0,
            step_fixed: 0,
            previous_random: (0, 0),
            current_random: (0, 0),
            random_delta: (0, 0),
            elapsed_ms: 0,
            update_interval_ms: (1000int / updates_per_second as int) as u64,
            immediate_update_pending: true,
            lock_renderer,
            offset: (0, 0),
        }
    }

    /// Starts a shake when the request is accepted; otherwise changes nothing.
    pub fn configure(
        &mut self,
        direction_mode: i32,
        amplitude: i32,
        oscillation_ticks: i32,
        cycle_count: i32,
        damping_percent: i32,
        updates_per_second: i32,
        lock_renderer: bool,
    ) -> (accepted: bool)
        ensures
            accepted == Self::accepts(direction_mode, oscillation_ticks, cycle_count, updates_per_second),
            accepted ==> *final(self) == old(self).configured(
                direction_mode,
                amplitude,
                oscillation_ticks,
                cycle_count,
                damping_percent,
                updates_per_second,
                lock_renderer,
            ),
            !accepted ==> *final(self) == *old(self),
    {
        if !(0 <= direction_mode && direction_mode <= 3) || oscillation_ticks < 1 || cycle_count < 1
            || updates_per_second < 1 || updates_per_second < oscillation_ticks {
            return false;
        }
        self.active = true;
        self.direction_mode = direction_mode;
        self.current_amplitude_fixed = amplitude as i64 * 2048;
        self.cycle_count = cycle_count as u32;
        self.damping_percent = damping_percent;
        self.updates_per_second = updates_per_second as u32;
        self.updates_per_cycle = self.updates_per_second / oscillation_ticks as u32;
        self.cycle_index = 0;
        self.update_index = 0;
        self.scalar_fixed = 0;
        self.step_fixed = 0;
        self.previous_random = (0, 0);
        self.current_random = (0, 0);
        self.random_delta = (0, 0);
        self.elapsed_ms = 0;
        self.update_interval_ms = 1000 / self.updates_per_second as u64;
        self.immediate_update_pending = true;
        self.lock_renderer = lock_renderer;
        self.offset = (0, 0);
        true
    }

    /// Step of the triangular scalar for a cycle: 4·A/N (saturating product,
    /// at least one update per cycle).
    pub open spec fn cycle_step(self) -> int {
        let n = if self.updates_per_cycle > 1 { self.updates_per_cycle as int } else { 1 };
        tdiv(sat64(self.current_amplitude_fixed * 4), n)
    }

    /// The random endpoint for the next cycle and the generator afterwards.
    pub open spec fn next_endpoint(self, seed: u32) -> ((i64, i64), u32) {
        if self.direction_mode == 3 && self.current_amplitude_fixed > 0 {
            let (x, s1) = shake_random_average(seed, self.current_amplitude_fixed);
            let (y, s2) = shake_random_average(s1, self.current_amplitude_fixed);
            let r = self.cycle_index % 4;
            (
                if r == 0 {
                    ((-x) as i64, (-y) as i64)
                } else if r == 1 {
                    (x as i64, y as i64)
                } else if r == 2 {
                    ((-x) as i64, y as i64)
                } else {
                    (x as i64, (-y) as i64)
                },
                s2,
            )
        } else if self.direction_mode == 3 {
            ((0i64, 0i64), seed)
        } else {
            (self.current_random, seed)
        }
    }

    /// The state and generator after the start of a cycle: the scalar restarts
    /// at zero with the cycle step; the previous endpoint becomes the start of
    /// the interpolation towards the next one.
    pub open spec fn begin_cycle_spec(self, seed: u32) -> (Self, u32) {
        let (current, seed2) = self.next_endpoint(seed);
        (
            NativeScreenShakeState {
                scalar_fixed: 0,
                step_fixed: self.cycle_step() as i64,
                previous_random: self.current_random,
                current_random: current,
                random_delta: (
                    (current.0 - self.current_random.0) as i64,
                    (current.1 - self.current_random.1) as i64,
                ),
                ..self
            },
            seed2,
        )
    }

    fn compute_step(&self) -> (step: i64)
        ensures
            step as int == self.cycle_step(),
    {
        let n: i64 = if self.updates_per_cycle > 1 {
            self.updates_per_cycle as i64
        } else {
            1
        };
        let product = sat_mul(self.current_amplitude_fixed, 4);
        product / n
    }

    fn draw_endpoint(&self, rng_seed: &mut u32) -> (out: (i64, i64))
        requires
            self.wf(),
        ensures
            (out, *final(rng_seed)) == self.next_endpoint(*old(rng_seed)),
            random_ok(out),
    {
        if self.direction_mode == 3 && self.current_amplitude_fixed > 0 {
            let x = target_shake_random_average(rng_seed, self.current_amplitude_fixed);
            let y = target_shake_random_average(rng_seed, self.current_amplitude_fixed);
            proof {
                assert(x <= average_modulus(self.current_amplitude_fixed) - 1) by {
                    lemma_average_rounds_bounds(*old(rng_seed), 8, average_modulus(self.current_amplitude_fixed));
                }
            }
            let ghost s1 = shake_random_average(*old(rng_seed), self.current_amplitude_fixed).1;
            proof {
                lemma_average_rounds_bounds(s1, 8, average_modulus(self.current_amplitude_fixed));
            }
            let r = self.cycle_index % 4;
            if r == 0 {
                (-x, -y)
            } else if r == 1 {
                (x, y)
            } else if r == 2 {
                (-x, y)
            } else {
                (x, -y)
            }
        } else if self.direction_mode == 3 {
            (0, 0)
        } else {
            self.current_random
        }
    }

    fn begin_cycle(&mut self, rng_seed: &mut u32)
        requires
            old(self).wf(),
        ensures
            (*final(self), *final(rng_seed)) == old(self).begin_cycle_spec(*old(rng_seed)),
            final(self).wf(),
    {
        let step = self.compute_step();
        let current = self.draw_endpoint(rng_seed);
        let previous = self.current_random;
        let delta = (current.0 - previous.0, current.1 - previous.1);
        *self = NativeScreenShakeState {
            scalar_fixed: 0,
            step_fixed: step,
            previous_random: previous,
            current_random: current,
            random_delta: delta,
            ..*self
        };
    }
}


/// Floor division by 4096: the whole-pixel part of a 12-bit fixed value.
pub open spec fn fixed_to_pixels(x: int) -> int {
    x / 4096
}

fn pixels_of(x: i64) -> (out: i64)
    ensures
        out as int == fixed_to_pixels(x as int),
{
    let q = x / 4096;
    let r = x % 4096;
    proof {
        vstd::arithmetic::div_mod::lemma_fundamental_div_mod(x as int, 4096);
        if x >= 0 {
            assert(q == x as int / 4096);
        } else {
            assert(q == -((-x) as int / 4096));
            vstd::arithmetic::div_mod::lemma_fundamental_div_mod(-x as int, 4096);
        }
    }
    if r < 0 {
        q - 1
    } else {
        q
    }
}

/// `n + 1` saturated at `u32::MAX`.
pub open spec fn sat_inc(n: u32) -> u32 {
    if n == u32::MAX {
        n
    } else {
        (n + 1) as u32
    }
}

impl NativeScreenShakeState {
    /// The scalar after one update: the step is added, and a scalar that
    /// overshoots `±A` is reflected around it (without discarding overshoot),
    /// reversing the step.
    pub open spec fn reflected(self) -> (i64, i64) {
        let amp = self.current_amplitude_fixed as int;
        let scalar = sat64(self.scalar_fixed + self.step_fixed);
        let step = if scalar > amp || scalar < -amp {
            sat64(-self.step_fixed)
        } else {
            self.step_fixed as int
        };
        let s2 = if scalar > amp {
            sat64(sat64(amp * 2) - scalar)
        } else {
            scalar
        };
        let s3 = if s2 < -amp {
            sat64(sat64(-s2) - sat64(amp * 2))
        } else {
            s2
        };
        (s3 as i64, step as i64)
    }

    /// The fixed-point offset for a mode: x only, y only, both, or the
    /// interpolation between the two random endpoints.
    pub open spec fn mode_offset(self, scalar: int) -> (int, int) {
        if self.direction_mode == 0 {
            (scalar, 0)
        } else if self.direction_mode == 1 {
            (0, scalar)
        } else if self.direction_mode == 2 {
            (scalar, scalar)
        } else if self.direction_mode == 3 {
            let n = self.updates_per_cycle as int;
            let i = self.update_index as int;
            (
                self.previous_random.0 + tdiv(sat64(self.random_delta.0 * i), n),
                self.previous_random.1 + tdiv(sat64(self.random_delta.1 * i), n),
            )
        } else {
            (0, 0)
        }
    }

    /// The stopped state: inactive, scalar and step cleared, no pending update, no offset.
    pub open spec fn cancelled(self) -> Self {
        NativeScreenShakeState {
            active: false,
            scalar_fixed: 0,
            step_fixed: 0,
            immediate_update_pending: false,
            offset: (0, 0),
            ..self
        }
    }

    /// One procedure update: a new cycle starts when the update index is zero;
    /// the scalar moves and reflects; the offset follows the mode; after the
    /// last update of a cycle the amplitude is damped by `damping` percent and
    /// after the last cycle the shake stops.
    pub open spec fn advance_spec(self, seed: u32) -> (Self, u32) {
        if !self.active {
            (self, seed)
        } else {
            let (s1, seed1) = if self.update_index == 0 {
                self.begin_cycle_spec(seed)
            } else {
                (self, seed)
            };
            let (scalar, step) = s1.reflected();
            let (xf, yf) = s1.mode_offset(scalar as int);
            let moved = NativeScreenShakeState {
                scalar_fixed: scalar,
                step_fixed: step,
                offset: (fixed_to_pixels(xf) as i64, fixed_to_pixels(yf) as i64),
                update_index: sat_inc(s1.update_index),
                ..s1
            };
            if moved.update_index >= moved.updates_per_cycle {
                let next = NativeScreenShakeState {
                    cycle_index: sat_inc(moved.cycle_index),
                    current_amplitude_fixed: tdiv(
                        sat64(moved.current_amplitude_fixed * (100 - moved.damping_percent)),
                        100,
                    ) as i64,
                    update_index: 0,
                    ..moved
                };
                if next.cycle_index >= next.cycle_count {
                    (next.cancelled(), seed1)
                } else {
                    (next, seed1)
                }
            } else {
                (moved, seed1)
            }
        }
    }

    /// Stops the shake and clears its offset.
    pub fn cancel(&mut self)
        ensures
            *final(self) == old(self).cancelled(),
    {
        self.active = false;
        self.scalar_fixed = 0;
        self.step_fixed = 0;
        self.immediate_update_pending = false;
        self.offset = (0, 0);
    }

    fn reflect(&self) -> (out: (i64, i64))
        requires
            self.wf(),
        ensures
            out == self.reflected(),
    {
        let amp = self.current_amplitude_fixed;
        let mut scalar = sat_add(self.scalar_fixed, self.step_fixed);
        let mut step = self.step_fixed;
        if scalar > amp || scalar < -amp {
            step = sat_neg(step);
        }
        if scalar > amp {
            scalar = sat_sub(sat_mul(amp, 2), scalar);
        }
        if scalar < -amp {
            scalar = sat_sub(sat_neg(scalar), sat_mul(amp, 2));
        }
        (scalar, step)
    }

    fn offset_for(&self, scalar: i64) -> (out: (i64, i64))
        requires
            self.wf(),
        ensures
            out.0 as int == self.mode_offset(scalar as int).0,
            out.1 as int == self.mode_offset(scalar as int).1,
    {
        match self.direction_mode {
            0 => (scalar, 0),
            1 => (0, scalar),
            2 => (scalar, scalar),
            3 => {
                let n = self.updates_per_cycle as i64;
                let i = self.update_index as i64;
                proof {
                    lemma_interpolation_bounds(self.random_delta.0 as int, i as int, n as int);
                    lemma_interpolation_bounds(self.random_delta.1 as int, i as int, n as int);
                }
                (
                    self.previous_random.0 + sat_mul(self.random_delta.0, i) / n,
                    self.previous_random.1 + sat_mul(self.random_delta.1, i) / n,
                )
            },
            _ => (0, 0),
        }
    }

    /// Runs one procedure update.
    pub fn advance_one_update(&mut self, rng_seed: &mut u32)
        requires
            old(self).wf(),
        ensures
            (*final(self), *final(rng_seed)) == old(self).advance_spec(*old(rng_seed)),
            final(self).wf(),
    {
        if !self.active {
            return;
        }
        if self.update_index == 0 {
            self.begin_cycle(rng_seed);
        }
        let (scalar, step) = self.reflect();
        let (x_fixed, y_fixed) = self.offset_for(scalar);
        let next_index = if self.update_index == u32::MAX {
            u32::MAX
        } else {
            self.update_index + 1
        };
        let offset = (pixels_of(x_fixed), pixels_of(y_fixed));
        self.scalar_fixed = scalar;
        self.step_fixed = step;
        self.offset = offset;
        self.update_index = next_index;
        if self.update_index >= self.updates_per_cycle {
            self.cycle_index = if self.cycle_index == u32::MAX {
                u32::MAX
            } else {
                self.cycle_index + 1
            };
            let factor = (100 - self.damping_percent) as i64;
            let damped = sat_mul(self.current_amplitude_fixed, factor) / 100;
            self.current_amplitude_fixed = damped;
            self.update_index = 0;
            if self.cycle_index >= self.cycle_count {
                self.cancel();
            }
        }
    }
}

/// The interpolated part of a random-mode offset is smaller than the delta.
pub proof fn lemma_interpolation_bounds(delta: int, i: int, n: int)
    requires
        -0x1_0000_0000 < delta < 0x1_0000_0000,
        0 <= i < n,
        n <= u32::MAX,
    ensures
        -0x1_0000_0000 < tdiv(sat64(delta * i), n) < 0x1_0000_0000,
{
    assert(-0x1_0000_0000 * n < delta * i < 0x1_0000_0000 * n) by (nonlinear_arith)
        requires
            -0x1_0000_0000 < delta < 0x1_0000_0000,
            0 <= i < n,
    ;
    let p = sat64(delta * i);
    assert(-0x1_0000_0000 * n < p < 0x1_0000_0000 * n);
    if p >= 0 {
        assert(p / n <= 0x1_0000_0000 - 1) by (nonlinear_arith)
            requires
                p < 0x1_0000_0000 * n,
                n > 0,
                p >= 0,
        ;
    } else {
        assert((-p) / n <= 0x1_0000_0000 - 1) by (nonlinear_arith)
            requires
                -p < 0x1_0000_0000 * n,
                n > 0,
                -p > 0,
        ;
    }
}


/// An update leaves the procedure clock and its interval alone.
pub proof fn lemma_advance_keeps_clock(s: NativeScreenShakeState, seed: u32)
    ensures
        s.advance_spec(seed).0.elapsed_ms == s.elapsed_ms,
        s.advance_spec(seed).0.update_interval_ms == s.update_interval_ms,
{
}

impl NativeScreenShakeState {
    /// Runs every update that is due: while active, each full interval of
    /// accumulated time is consumed by one update.
    pub open spec fn run_due(self, seed: u32) -> (Self, u32)
        decreases self.elapsed_ms,
    {
        if self.active && self.update_interval_ms > 0 && self.elapsed_ms >= self.update_interval_ms {
            let consumed = NativeScreenShakeState {
                elapsed_ms: (self.elapsed_ms - self.update_interval_ms) as u64,
                ..self
            };
            proof {
                lemma_advance_keeps_clock(consumed, seed);
            }
            let (next, seed2) = consumed.advance_spec(seed);
            next.run_due(seed2)
        } else {
            (self, seed)
        }
    }

    /// One host pass of `elapsed_ms`: an idle shake reports no offset; a
    /// pending first update runs at once; a zero interval runs exactly one
    /// update per pass; otherwise every due update runs.
    pub open spec fn tick_spec(self, elapsed_ms: u64, seed: u32) -> (Self, u32) {
        if !self.active {
            (NativeScreenShakeState { offset: (0, 0), ..self }, seed)
        } else {
            let total = if self.elapsed_ms + elapsed_ms > u64::MAX {
                u64::MAX
            } else {
                (self.elapsed_ms + elapsed_ms) as u64
            };
            let s1 = NativeScreenShakeState { elapsed_ms: total, ..self };
            let (s2, seed2) = if s1.immediate_update_pending {
                NativeScreenShakeState { immediate_update_pending: false, ..s1 }.advance_spec(seed)
            } else {
                (s1, seed)
            };
            if s2.update_interval_ms == 0 {
                if s2.active {
                    s2.advance_spec(seed2)
                } else {
                    (s2, seed2)
                }
            } else {
                s2.run_due(seed2)
            }
        }
    }

    /// Advances the shake by `elapsed_ms` and returns the current offset.
    pub fn tick(&mut self, elapsed_ms: u64, rng_seed: &mut u32) -> (offset: (i64, i64))
        requires
            old(self).wf(),
        ensures
            (*final(self), *final(rng_seed)) == old(self).tick_spec(elapsed_ms, *old(rng_seed)),
            offset == final(self).offset,
            final(self).wf(),
    {
        if !self.active {
            self.offset = (0, 0);
            return self.offset;
        }
        self.elapsed_ms = self.elapsed_ms.saturating_add(elapsed_ms);
        if self.immediate_update_pending {
            self.immediate_update_pending = false;
            self.advance_one_update(rng_seed);
        }
        if self.update_interval_ms == 0 {
            if self.active {
                self.advance_one_update(rng_seed);
            }
            return self.offset;
        }
        let ghost start = *self;
        let ghost start_seed = *rng_seed;
        while self.active && self.elapsed_ms >= self.update_interval_ms
            invariant
                self.wf(),
                self.update_interval_ms > 0,
                start.run_due(start_seed) == self.run_due(*rng_seed),
            decreases self.elapsed_ms,
        {
            self.elapsed_ms = self.elapsed_ms - self.update_interval_ms;
            proof {
                lemma_advance_keeps_clock(*self, *rng_seed);
            }
            self.advance_one_update(rng_seed);
        }
        self.offset
    }
}


pub const DEBUG_WINDOW_HANDLE_PREFIX: u32 = 0xFF00_0000;
pub const MAX_DEBUG_WINDOWS: usize = 8;
pub const MAX_EDIT_TEXT_BYTES: usize = 255;
pub const MAX_MODELESS_DIALOGS: usize = 16;

/// One bitmap drawn into a debug window.
#[derive(Debug, Clone)]
pub struct NativeDebugBitmapDraw {
    pub x: i32,
    pub y: i32,
    pub bitmap: i32,
    pub blend_mode: i32,
    pub alpha: i32,
}

/// One text run drawn into a debug window.
#[derive(Debug, Clone)]
pub struct NativeDebugTextDraw {
    pub x: i32,
    pub y: i32,
    pub text: String,
    pub font_id: i32,
    pub font_size: i32,
    pub style: i32,
    pub color: i32,
    pub blend_mode: i32,
    pub alpha: i32,
    pub extent: i32,
}

/// A script-created debug window.
#[derive(Debug, Clone)]
pub struct NativeDebugWindow {
    pub title: String,
    pub x: i32,
    pub y: i32,
    pub width: i32,
    pub height: i32,
    pub visible: bool,
    pub clear_color: i32,
    pub bitmap_draws: Vec<NativeDebugBitmapDraw>,
    pub text_draws: Vec<NativeDebugTextDraw>,
    pub close_message: String,
}

impl NativeDebugWindow {
    /// A visible, cleared window with nothing drawn.
    pub fn new(title: String, x: i32, y: i32, width: i32, height: i32) -> (w: Self)
        ensures
            w.title@ == title@,
            w.x == x && w.y == y && w.width == width && w.height == height,
            w.visible,
            w.clear_color == 0,
            w.bitmap_draws@.len() == 0,
            w.text_draws@.len() == 0,
            w.close_message@.len() == 0,
    {
        NativeDebugWindow {
            title,
            x,
            y,
            width,
            height,
            visible: true,
            clear_color: 0,
            bitmap_draws: Vec::new(),
            text_draws: Vec::new(),
            close_message: String::new(),
        }
    }
}

/// The script edit box.
#[derive(Debug, Clone)]
pub struct NativeEditControl {
    pub active: bool,
    pub visible: bool,
    pub x: i32,
    pub y: i32,
    pub width: i32,
    pub height: i32,
    pub font_id: i32,
    pub font_size: i32,
    pub max_chars: usize,
    pub focused: bool,
    pub font_scale: i32,
    pub color: i32,
    pub hide_on_enter: bool,
    pub printable_input_enabled: bool,
}

impl NativeEditControl {
    /// An inactive, hidden edit box with the engine defaults.
    pub fn new() -> (e: Self)
        ensures
            !e.active && !e.visible && !e.focused,
            e.font_size == 16 && e.max_chars == 256 && e.font_scale == 100,
            !e.hide_on_enter && e.printable_input_enabled,
    {
        NativeEditControl {
            active: false,
            visible: false,
            x: 0,
            y: 0,
            width: 0,
            height: 0,
            font_id: 0,
            font_size: 16,
            max_chars: 256,
            focused: false,
            font_scale: 100,
            color: 0,
            hide_on_enter: false,
            printable_input_enabled: true,
        }
    }
}

/// A modeless control dialog: five sliders, four toggles, a visibility flag
/// and the queue of `[control, value]` events it raised.
#[derive(Debug, Clone)]
pub struct NativeModelessDialog {
    pub initial: [i32; 9],
    pub visible: bool,
    pub events: VecDeque<[i32; 2]>,
}

/// A native dialog the script asked for: its selector and its arguments
/// as text.
#[derive(Debug)]
pub struct NativeDialogRequest {
    pub selector: u16,
    pub arguments: Vec<String>,
}

/// The dialogs remembered: the most recent ones, at most this many.
pub const MAX_DIALOG_HISTORY: usize = 32;

/// The last `n` elements of `s` (all of them when there are fewer).
pub open spec fn keep_last<T>(s: Seq<T>, n: nat) -> Seq<T> {
    if s.len() > n {
        s.skip(s.len() - n)
    } else {
        s
    }
}

fn keep_recent_dialogs(history: &mut VecDeque<NativeDialogRequest>)
    ensures
        final(history)@ == keep_last(old(history)@, MAX_DIALOG_HISTORY as nat),
{
    while history.len() > MAX_DIALOG_HISTORY
        invariant
            keep_last(old(history)@, MAX_DIALOG_HISTORY as nat) == keep_last(
                history@,
                MAX_DIALOG_HISTORY as nat,
            ),
        decreases history@.len(),
    {
        let ghost before = history@;
        history.pop_front();
        assert(before.skip(before.len() - MAX_DIALOG_HISTORY) =~= history@.skip(
            history@.len() - MAX_DIALOG_HISTORY,
        ));
    }
}

/// An interned font.
#[derive(Debug, Clone, Copy)]
pub struct NativeFontRecord {
    pub id: i32,
    pub option: i32,
    pub metadata_charset: Option<i32>,
}

/// Keys a focused edit box reacts to.
#[derive(Debug, Clone, Copy, PartialEq, Eq, Structural)]
pub enum KeyCode {
    Tab,
    Enter,
    NumpadEnter,
    Backspace,
    Other,
}

/// User-interface state the script drives: edit text, cursor binding, debug
/// windows, modeless dialogs, fonts, blocking messages, the CRT generator and
/// the screen shake.
pub struct NativeUserState {
    pub text: String,
    pub cursor_object: Option<(i32, i32, i32)>,
    pub debug_windows: Vec<Option<NativeDebugWindow>>,
    pub edit: NativeEditControl,
    pub blocking_message: Option<(String, String)>,
    pub dialog_history: VecDeque<NativeDialogRequest>,
    pub next_dialog_result: Option<i32>,
    pub dialog_handles: Vec<i32>,
    pub dialogs: Vec<NativeModelessDialog>,
    pub next_modeless_dialog: i32,
    pub next_font_id: i32,
    pub font_names: Vec<Vec<char>>,
    pub fonts: Vec<NativeFontRecord>,
    pub crt_rng_seed: u32,
    pub screen_shake: NativeScreenShakeState,
    pub message_box_title: String,
    pub font_aliases: FontAliases,
    pub font_resources: Vec<Vec<char>>,
    pub last_window_bitmap_draw: Option<(i32, i32, i32)>,
    pub window_mode: i32,
    pub window_surface_width: i32,
    pub window_surface_height: i32,
    pub pending_window_position: Option<(i32, i32)>,
    pub cursor_idle_timeout_ms: u32,
    pub cursor_idle_visible: bool,
}

/// Font aliases: each alias name with the face it stands for; an alias
/// named again replaces its face.
pub struct FontAliases {
    pub names: Vec<Vec<char>>,
    pub faces: Vec<Vec<char>>,
}

impl FontAliases {
    /// One face per name.
    pub open spec fn wf(&self) -> bool {
        self.names@.len() == self.faces@.len()
    }

    /// The aliases as a map from name to face.
    pub open spec fn view_map(&self) -> Map<Seq<char>, Seq<char>> {
        Map::new(
            |n: Seq<char>| self.names@.map_values(|v: Vec<char>| v@).contains(n),
            |n: Seq<char>| self.faces@[first_index(self.names@.map_values(|v: Vec<char>| v@), n)]@,
        )
    }

    /// No aliases.
    pub fn new() -> (a: Self)
        ensures
            a.wf(),
            a.view_map() == Map::<Seq<char>, Seq<char>>::empty(),
    {
        let a = FontAliases { names: Vec::new(), faces: Vec::new() };
        assert(a.view_map() =~= Map::<Seq<char>, Seq<char>>::empty());
        a
    }

    /// The face an alias stands for.
    pub fn get(&self, name: &Vec<char>) -> (out: Option<Vec<char>>)
        requires
            self.wf(),
        ensures
            match out {
                Some(f) => self.view_map().contains_key(name@) && f@ == self.view_map()[name@],
                None => !self.view_map().contains_key(name@),
            },
    {
        let ghost names = self.names@.map_values(|v: Vec<char>| v@);
        proof {
            lemma_first_index(names, name@);
        }
        let mut i: usize = 0;
        while i < self.names.len()
            invariant
                i <= self.names.len(),
                self.names@.len() == self.faces@.len(),
                names == self.names@.map_values(|v: Vec<char>| v@),
                forall|j: int| 0 <= j < i ==> names[j] != name@,
            decreases self.names.len() - i,
        {
            if vec_eq(&self.names[i], name) {
                proof {
                    lemma_first_index(names, name@);
                    assert(names[i as int] == name@);
                    assert(names.contains(name@));
                }
                return Some(copy_chars(&self.faces[i]));
            }
            i += 1;
        }
        assert(!names.contains(name@));
        None
    }

    /// Sets the face of an alias, replacing one it had.
    pub fn insert(&mut self, name: Vec<char>, face: Vec<char>)
        requires
            old(self).wf(),
        ensures
            final(self).wf(),
            final(self).view_map() == old(self).view_map().insert(name@, face@),
    {
        let ghost names = self.names@.map_values(|v: Vec<char>| v@);
        proof {
            lemma_first_index(names, name@);
        }
        let mut i: usize = 0;
        while i < self.names.len()
            invariant
                i <= self.names.len(),
                names == self.names@.map_values(|v: Vec<char>| v@),
                self.names@ == old(self).names@,
                self.faces@ == old(self).faces@,
                self.wf(),
                forall|j: int| 0 <= j < i ==> names[j] != name@,
            decreases self.names.len() - i,
        {
            if vec_eq(&self.names[i], &name) {
                self.faces.set(i, face);
                proof {
                    lemma_first_index(names, name@);
                    assert(names[i as int] == name@);
                    assert(names.contains(name@));
                    assert(first_index(names, name@) == i as int);
                    assert forall|k: Seq<char>| #[trigger] self.view_map().contains_key(k) implies self.view_map()[k]
                        == old(self).view_map().insert(name@, face@)[k] by {
                        lemma_first_index(names, k);
                        if k != name@ {
                            assert(first_index(names, k) != i as int);
                        }
                    }
                    assert(self.view_map().dom() =~= old(self).view_map().insert(name@, face@).dom());
                    assert(self.view_map() =~= old(self).view_map().insert(name@, face@));
                }
                return;
            }
            i += 1;
        }
        self.names.push(name);
        self.faces.push(face);
        proof {
            let n2 = self.names@.map_values(|v: Vec<char>| v@);
            assert(n2 =~= names.push(name@));
            assert forall|k: Seq<char>| #[trigger] n2.contains(k) implies first_index(n2, k) == (if k == name@ {
                names.len() as int
            } else {
                first_index(names, k)
            }) by {
                lemma_first_index(n2, k);
                lemma_first_index(names, k);
                if k != name@ {
                    assert(n2[n2.len() - 1] == name@);
                    assert(names.contains(k));
                    let a = first_index(names, k);
                    assert(n2[a] == names[a]);
                } else {
                    assert(!names.contains(name@)) by {
                        if names.contains(name@) {
                            let j = choose|j: int| 0 <= j < names.len() && names[j] == name@;
                            assert(names[j] != name@);
                        }
                    }
                }
            }
            assert forall|k: Seq<char>| #[trigger] self.view_map().contains_key(k) implies self.view_map()[k]
                == old(self).view_map().insert(name@, face@)[k] by {
                assert(n2.contains(k));
                lemma_first_index(names, k);
                if k != name@ {
                    assert(first_index(names, k) < old(self).faces@.len());
                    assert(self.faces@[first_index(names, k)] == old(self).faces@[first_index(names, k)]);
                } else {
                    assert(first_index(n2, k) == names.len() as int);
                }
            }
            assert forall|k: Seq<char>| #[trigger] n2.contains(k) == (names.contains(k) || k == name@) by {
                if names.contains(k) {
                    let j = choose|j: int| 0 <= j < names.len() && names[j] == k;
                    assert(n2[j] == k);
                }
                if k == name@ {
                    assert(n2[names.len() as int] == k);
                }
            }
            assert(self.view_map().dom() =~= old(self).view_map().insert(name@, face@).dom());
            assert(self.view_map() =~= old(self).view_map().insert(name@, face@));
        }
    }
}

/// A copy of a character vector.
pub fn copy_chars(v: &Vec<char>) -> (out: Vec<char>)
    ensures
        out@ == v@,
{
    let mut out: Vec<char> = Vec::new();
    let mut i: usize = 0;
    while i < v.len()
        invariant
            i <= v.len(),
            out@ == v@.take(i as int),
        decreases v.len() - i,
    {
        out.push(v[i]);
        assert(v@.take(i + 1) =~= v@.take(i as int).push(v@[i as int]));
        i += 1;
    }
    assert(v@.take(v@.len() as int) =~= v@);
    out
}

/// `h` if positive, else 1.
pub open spec fn at_least_one(h: int) -> int {
    if h < 1 {
        1
    } else {
        h
    }
}

/// The first handle at or after `h` that `handles` does not hold, counting up
/// (saturating at `i32::MAX`).
pub open spec fn first_free_handle(handles: Seq<i32>, h: int) -> int
    decreases i32::MAX - h,
{
    if h >= i32::MAX || !handles.contains(h as i32) {
        h
    } else {
        first_free_handle(handles, h + 1)
    }
}

/// A dialog's starting values: the five sliders clamped to `0..=128`, the four
/// toggles reduced to 0 or 1.
pub open spec fn normalized_initial(initial: Seq<i32>) -> Seq<i32> {
    Seq::new(
        9,
        |i: int|
            if i < 5 {
                if initial[i] < 0 {
                    0i32
                } else if initial[i] > 128 {
                    128i32
                } else {
                    initial[i]
                }
            } else if initial[i] != 0 {
                1i32
            } else {
                0i32
            },
    )
}

/// Whether `blend_mode` is one a debug window accepts.
pub open spec fn debug_blend_mode_spec(m: i32) -> bool {
    (0x00 <= m <= 0x09) || (0x20 <= m <= 0x27) || m == 0x40 || m == 0x41 || m == 0x80 || m == 0xC0
        || m == 0xC1 || m == 0xF0 || m == 0xFF
}

/// Whether `blend_mode` is one a debug window accepts.
pub fn is_debug_blend_mode(blend_mode: i32) -> (out: bool)
    ensures
        out == debug_blend_mode_spec(blend_mode),
{
    (0x00 <= blend_mode && blend_mode <= 0x09) || (0x20 <= blend_mode && blend_mode <= 0x27)
        || blend_mode == 0x40 || blend_mode == 0x41 || blend_mode == 0x80 || blend_mode == 0xC0
        || blend_mode == 0xC1 || blend_mode == 0xF0 || blend_mode == 0xFF
}

/// The first empty slot at or after `i`.
pub open spec fn first_free_slot<T>(slots: Seq<Option<T>>, i: nat) -> Option<int>
    decreases slots.len() - i,
{
    if i >= slots.len() {
        None
    } else if slots[i as int] is None {
        Some(i as int)
    } else {
        first_free_slot(slots, i + 1)
    }
}

proof fn lemma_first_free_slot<T>(slots: Seq<Option<T>>, i: nat, slot: int)
    requires
        i <= slot <= slots.len(),
        slot < slots.len() ==> slots[slot] is None,
        forall|j: int| i <= j < slot ==> slots[j] is Some,
    ensures
        first_free_slot(slots, i) == if slot < slots.len() {
            Some(slot)
        } else {
            None::<int>
        },
    decreases slot - i,
{
    if i < slot {
        lemma_first_free_slot(slots, i + 1, slot);
    }
}

/// Debug windows fill their slots in order: with the first `k` slots taken
/// and the rest free, the next window opened takes slot `k`, and none is
/// free once all are taken.
pub proof fn law_debug_slots_fill_in_order<T>(slots: Seq<Option<T>>, k: int)
    requires
        0 <= k <= slots.len(),
        forall|j: int| 0 <= j < k ==> slots[j] is Some,
        forall|j: int| k <= j < slots.len() ==> slots[j] is None,
    ensures
        first_free_slot(slots, 0) == if k < slots.len() {
            Some(k)
        } else {
            None::<int>
        },
{
    lemma_first_free_slot(slots, 0, k);
}

/// The debug-window slot a handle names: `0xFF0000xx` with `xx < 8`.
pub open spec fn debug_slot_spec(handle: i32) -> Option<int> {
    let raw = if handle < 0 { handle + 0x1_0000_0000 } else { handle as int };
    if raw / 256 == 0xFF_0000 && raw % 256 < MAX_DEBUG_WINDOWS {
        Some(raw % 256)
    } else {
        None
    }
}

/// The handle of debug-window slot `slot`.
pub open spec fn debug_handle(slot: int) -> i32 {
    (0xFF00_0000 + slot - 0x1_0000_0000) as i32
}

impl NativeUserState {
    /// Dialogs keyed by handle.
    pub closed spec fn dialog_map(&self) -> Map<i32, NativeModelessDialog> {
        Map::new(
            |h: i32| self.dialog_handles@.contains(h),
            |h: i32| self.dialogs@[first_index(self.dialog_handles@, h)],
        )
    }

    /// Handles of the open dialogs, in creation order.
    pub closed spec fn dialog_handles_view(&self) -> Seq<i32> {
        self.dialog_handles@
    }

    /// The handle the next dialog search starts from.
    pub closed spec fn next_dialog_view(&self) -> i32 {
        self.next_modeless_dialog
    }

    /// Interned fonts keyed by name.
    pub closed spec fn font_map(&self) -> Map<Seq<char>, NativeFontRecord> {
        Map::new(
            |n: Seq<char>| self.font_names@.map_values(|v: Vec<char>| v@).contains(n),
            |n: Seq<char>| self.fonts@[first_index(self.font_names@.map_values(|v: Vec<char>| v@), n)],
        )
    }

    /// The id the next new font receives.
    pub closed spec fn next_font_view(&self) -> i32 {
        self.next_font_id
    }

    /// Debug-window slots.
    pub closed spec fn debug_slots(&self) -> Seq<Option<NativeDebugWindow>> {
        self.debug_windows@
    }

    /// The pending blocking message, as (title, message).
    pub closed spec fn blocking_view(&self) -> Option<(Seq<char>, Seq<char>)> {
        match self.blocking_message {
            Some((t, m)) => Some((t@, m@)),
            None => None,
        }
    }

    /// Internal consistency: eight debug slots, dialogs and fonts without
    /// repeated keys, at most sixteen dialogs, and a well-formed shake.
    pub closed spec fn wf(&self) -> bool {
        &&& self.debug_windows@.len() == MAX_DEBUG_WINDOWS
        &&& self.dialog_handles@.len() == self.dialogs@.len()
        &&& distinct(self.dialog_handles@)
        &&& self.dialogs@.len() <= MAX_MODELESS_DIALOGS
        &&& self.font_names@.len() == self.fonts@.len()
        &&& distinct(self.font_names@.map_values(|v: Vec<char>| v@))
        &&& self.screen_shake.wf()
        &&& self.font_aliases.wf()
    }

    /// The debug slots are the window vector's contents.
    pub proof fn lemma_debug_slots_view(&self)
        ensures
            self.debug_slots() == self.debug_windows@,
    {
    }

    /// Consistency holds of a consistent state with another well-formed
    /// shake.
    pub proof fn lemma_wf_with_shake(a: Self, b: Self)
        requires
            a.wf(),
            b.screen_shake.wf(),
            (NativeUserState { screen_shake: a.screen_shake, ..b }) == a,
        ensures
            b.wf(),
    {
    }

    /// Consistency holds of a state that differs from a consistent one only
    /// in its window, cursor, font-alias and font-resource fields, with a
    /// well-formed alias table.
    pub proof fn lemma_wf_window_fields(a: Self, b: Self)
        requires
            a.wf(),
            b.font_aliases.wf(),
            (NativeUserState {
                font_aliases: a.font_aliases,
                font_resources: a.font_resources,
                last_window_bitmap_draw: a.last_window_bitmap_draw,
                pending_window_position: a.pending_window_position,
                cursor_object: a.cursor_object,
                ..b
            }) == a,
        ensures
            b.wf(),
    {
    }

    /// The alias table of a consistent state is well formed.
    pub proof fn lemma_wf_aliases(&self)
        requires
            self.wf(),
        ensures
            self.font_aliases.wf(),
    {
    }

    /// A consistent state has its eight debug slots.
    pub proof fn lemma_wf_slot_count(&self)
        requires
            self.wf(),
        ensures
            self.debug_windows@.len() == MAX_DEBUG_WINDOWS,
    {
    }

    /// Consistency holds of a state whose debug slots still number eight and
    /// whose dialogs, fonts and shake are those of a consistent state.
    pub proof fn lemma_wf_keeps(a: Self, b: Self)
        requires
            a.wf(),
            b.debug_windows@.len() == MAX_DEBUG_WINDOWS,
            b.dialog_handles == a.dialog_handles,
            b.dialogs == a.dialogs,
            b.font_names == a.font_names,
            b.fonts == a.fonts,
            b.screen_shake == a.screen_shake,
            b.font_aliases == a.font_aliases,
        ensures
            b.wf(),
            a.debug_windows@.len() == MAX_DEBUG_WINDOWS,
    {
    }

    /// The start-up state.
    pub fn new() -> (s: Self)
        ensures
            s.wf(),
            s.text@.len() == 0,
            s.cursor_object is None,
            s.dialog_map() == Map::<i32, NativeModelessDialog>::empty(),
            s.next_dialog_view() == 1,
            s.font_map() == Map::<Seq<char>, NativeFontRecord>::empty(),
            s.next_font_view() == 1,
            s.debug_slots().len() == MAX_DEBUG_WINDOWS,
            forall|i: int| 0 <= i < MAX_DEBUG_WINDOWS ==> s.debug_slots()[i] is None,
            s.blocking_view() is None,
            s.dialog_history@.len() == 0,
            s.next_dialog_result is None,
            s.crt_rng_seed == 1,
            s.screen_shake == NativeScreenShakeState::idle(),
    {
        let mut debug_windows: Vec<Option<NativeDebugWindow>> = Vec::new();
        let mut i: usize = 0;
        while i < MAX_DEBUG_WINDOWS
            invariant
                i <= MAX_DEBUG_WINDOWS,
                debug_windows@.len() == i,
                forall|j: int| 0 <= j < i ==> debug_windows@[j] is None,
            decreases MAX_DEBUG_WINDOWS - i,
        {
            debug_windows.push(None);
            i += 1;
        }
        let s = NativeUserState {
            text: String::new(),
            cursor_object: None,
            debug_windows,
            edit: NativeEditControl::new(),
            blocking_message: None,
            dialog_history: VecDeque::new(),
            next_dialog_result: None,
            dialog_handles: Vec::new(),
            dialogs: Vec::new(),
            next_modeless_dialog: 1,
            next_font_id: 1,
            font_names: Vec::new(),
            fonts: Vec::new(),
            crt_rng_seed: 1,
            screen_shake: NativeScreenShakeState::new(),
            message_box_title: String::new(),
            font_aliases: FontAliases::new(),
            font_resources: Vec::new(),
            last_window_bitmap_draw: None,
            window_mode: 0,
            window_surface_width: 0,
            window_surface_height: 0,
            pending_window_position: None,
            cursor_idle_timeout_ms: 0,
            cursor_idle_visible: true,
        };
        assert(s.dialog_map() =~= Map::<i32, NativeModelessDialog>::empty());
        assert(s.font_map() =~= Map::<Seq<char>, NativeFontRecord>::empty());
        s
    }

    /// Records a native dialog request, remembering the most recent
    /// [`MAX_DIALOG_HISTORY`], and answers with the scripted result (taken
    /// once), or 0.
    pub fn record_dialog(&mut self, selector: u16, arguments: Vec<String>) -> (out: i32)
        requires
            old(self).wf(),
        ensures
            final(self).wf(),
            final(self).dialog_history@ == keep_last(
                old(self).dialog_history@.push(NativeDialogRequest { selector, arguments }),
                MAX_DIALOG_HISTORY as nat,
            ),
            out == match old(self).next_dialog_result {
                Some(r) => r,
                None => 0,
            },
            final(self).next_dialog_result is None,
            (NativeUserState { dialog_history: old(self).dialog_history, next_dialog_result: old(self).next_dialog_result, ..*final(self) }) == *old(self),
    {
        self.dialog_history.push_back(NativeDialogRequest { selector, arguments });
        keep_recent_dialogs(&mut self.dialog_history);
        match self.next_dialog_result.take() {
            Some(r) => r,
            None => 0,
        }
    }

    /// Shows a message that stays up until acknowledged.
    pub fn begin_blocking_message(&mut self, title: String, message: String)
        ensures
            final(self).blocking_view() == Some((title@, message@)),
            final(self).wf() == old(self).wf(),
            final(self).dialog_map() == old(self).dialog_map(),
            (NativeUserState { blocking_message: old(self).blocking_message, ..*final(self) }) == *old(self),
    {
        self.blocking_message = Some((title, message));
    }

    /// Whether a blocking message is up.
    pub fn has_blocking_message(&self) -> (out: bool)
        ensures
            out == self.blocking_view() is Some,
    {
        self.blocking_message.is_some()
    }

    /// Dismisses the blocking message; true when one was up.
    pub fn acknowledge_blocking_message(&mut self) -> (out: bool)
        ensures
            out == old(self).blocking_view() is Some,
            final(self).blocking_view() is None,
            final(self).wf() == old(self).wf(),
            final(self).dialog_map() == old(self).dialog_map(),
    {
        let out = self.blocking_message.is_some();
        self.blocking_message = None;
        out
    }

    /// The debug-window slot a handle names.
    pub fn debug_slot(handle: i32) -> (out: Option<usize>)
        ensures
            match (out, debug_slot_spec(handle)) {
                (Some(a), Some(b)) => a == b,
                (None, None) => true,
                _ => false,
            },
    {
        let raw: u32 = if handle < 0 {
            (handle as i64 + 0x1_0000_0000) as u32
        } else {
            handle as u32
        };
        if raw / 256 != 0xFF_0000 {
            return None;
        }
        let slot = (raw % 256) as usize;
        if slot < MAX_DEBUG_WINDOWS {
            Some(slot)
        } else {
            None
        }
    }

    /// Opens a debug window in the first free slot and returns its handle.
    pub fn allocate_debug_window(&mut self, title: String, x: i32, y: i32, width: i32, height: i32) -> (out: Option<i32>)
        requires
            old(self).wf(),
        ensures
            final(self).wf(),
            final(self).dialog_map() == old(self).dialog_map(),
            out is None <==> (forall|i: int|
                0 <= i < MAX_DEBUG_WINDOWS ==> old(self).debug_slots()[i] is Some),
            out is None ==> final(self).debug_slots() == old(self).debug_slots(),
            old(self).debug_slots().len() == MAX_DEBUG_WINDOWS,
            final(self).debug_slots().len() == MAX_DEBUG_WINDOWS,
            (NativeUserState { debug_windows: old(self).debug_windows, ..*final(self) }) == *old(self),
            match first_free_slot(old(self).debug_slots(), 0) {
                Some(slot) => {
                    &&& out == Some(debug_handle(slot))
                    &&& 0 <= slot < MAX_DEBUG_WINDOWS
                    &&& debug_slot_spec(debug_handle(slot)) == Some(slot)
                    &&& final(self).debug_slots() == old(self).debug_slots().update(
                        slot,
                        final(self).debug_slots()[slot],
                    )
                    &&& final(self).debug_slots()[slot] matches Some(w)
                    &&& w.title@ == title@
                    &&& w.x == x && w.y == y && w.width == width && w.height == height && w.visible
                    &&& w.clear_color == 0 && w.bitmap_draws@.len() == 0 && w.text_draws@.len() == 0
                    &&& w.close_message@.len() == 0
                },
                None => out is None && final(self).debug_slots() == old(self).debug_slots(),
            },
    {
        let mut slot: usize = 0;
        while slot < MAX_DEBUG_WINDOWS && self.debug_windows[slot].is_some()
            invariant
                slot <= MAX_DEBUG_WINDOWS,
                self.debug_windows@.len() == MAX_DEBUG_WINDOWS,
                forall|j: int| 0 <= j < slot ==> self.debug_windows@[j] is Some,
            decreases MAX_DEBUG_WINDOWS - slot,
        {
            slot += 1;
        }
        proof {
            lemma_first_free_slot(old(self).debug_slots(), 0, slot as int);
        }
        if slot == MAX_DEBUG_WINDOWS {
            return None;
        }
        assert(old(self).debug_slots()[slot as int] is None);
        let window = NativeDebugWindow::new(title, x, y, width, height);
        self.debug_windows.set(slot, Some(window));
        let handle = (slot as i64 + 0xFF00_0000 - 0x1_0000_0000) as i32;
        assert(debug_slot_spec(handle) == Some(slot as int));
        assert(self.debug_windows@ == old(self).debug_windows@.update(slot as int, self.debug_windows@[slot as int]));
        assert(self.debug_slots()[slot as int] matches Some(w) && w.title@ == title@);
        assert({
            let slot = slot as int;
            &&& 0 <= slot < MAX_DEBUG_WINDOWS
            &&& handle == debug_handle(slot)
            &&& debug_slot_spec(handle) == Some(slot)
            &&& old(self).debug_slots()[slot] is None
            &&& (forall|j: int| 0 <= j < slot ==> old(self).debug_slots()[j] is Some)
            &&& self.debug_slots() == old(self).debug_slots().update(slot, self.debug_slots()[slot])
            &&& self.debug_slots()[slot] matches Some(w)
            &&& w.title@ == title@
            &&& w.x == x && w.y == y && w.width == width && w.height == height && w.visible
            &&& w.clear_color == 0 && w.bitmap_draws@.len() == 0 && w.text_draws@.len() == 0
            &&& w.close_message@.len() == 0
        });
        Some(handle)
    }

    /// The debug window a handle names, if open.
    pub fn debug_window(&self, handle: i32) -> (out: Option<&NativeDebugWindow>)
        requires
            self.wf(),
        ensures
            match debug_slot_spec(handle) {
                Some(slot) => match self.debug_slots()[slot] {
                    Some(w) => out == Some(&w),
                    None => out is None,
                },
                None => out is None,
            },
    {
        match Self::debug_slot(handle) {
            Some(slot) => self.debug_windows[slot].as_ref(),
            None => None,
        }
    }

    /// Interns a font name: a known name keeps its id (and takes the new
    /// option unless it is -1); a new name receives the next id. Option 0
    /// records charset 128, option 1 charset 0, anything else no charset.
    pub fn intern_font(&mut self, name: String, option: i32) -> (id: i32)
        requires
            old(self).wf(),
        ensures
            final(self).wf(),
            final(self).dialog_map() == old(self).dialog_map(),
            (final(self).font_map(), final(self).next_font_view(), id) == font_interned(
                old(self).font_map(),
                old(self).next_font_view(),
                name@,
                option,
            ),
            (NativeUserState { fonts: old(self).fonts, font_names: old(self).font_names, next_font_id: old(self).next_font_id, ..*final(self) }) == *old(self),
    {
        let charset = if option == 0 {
            Some(128)
        } else if option == 1 {
            Some(0)
        } else {
            None
        };
        let key = chars_of(name.as_str());
        let ghost names = self.font_names@.map_values(|v: Vec<char>| v@);
        proof {
            lemma_first_index(names, key@);
        }
        let mut i: usize = 0;
        while i < self.font_names.len() && !vec_eq(&self.font_names[i], &key)
            invariant
                i <= self.font_names.len(),
                names == self.font_names@.map_values(|v: Vec<char>| v@),
                forall|j: int| 0 <= j < i ==> names[j] != key@,
            decreases self.font_names.len() - i,
        {
            i += 1;
        }
        if i < self.font_names.len() {
            assert(names[i as int] == key@);
            proof {
                lemma_first_index_unique(names, i as int);
            }
            let id = self.fonts[i].id;
            if option != -1 {
                let ghost old_fonts = self.fonts@;
                self.fonts.set(i, NativeFontRecord { id, option, metadata_charset: charset });
                assert(self.font_names@.map_values(|v: Vec<char>| v@) == names);
                assert forall|n: Seq<char>| #[trigger] self.font_map().contains_key(n) implies
                    self.font_map()[n] == old(self).font_map().insert(
                        key@,
                        NativeFontRecord { id, option, metadata_charset: charset },
                    )[n] by {
                    lemma_first_index(names, n);
                }
                assert(self.font_map() =~= old(self).font_map().insert(
                    key@,
                    NativeFontRecord { id, option, metadata_charset: charset },
                ));
            }
            return id;
        }
        let id = self.next_font_id;
        let bumped = if id == i32::MAX { id } else { id + 1 };
        self.next_font_id = if bumped < 1 { 1 } else { bumped };
        let ghost kv = key@;
        self.font_names.push(key);
        self.fonts.push(NativeFontRecord { id, option, metadata_charset: charset });
        let ghost new_names = self.font_names@.map_values(|v: Vec<char>| v@);
        assert(new_names =~= names.push(kv));
        assert(new_names.drop_last() =~= names);
        assert forall|a: int, b: int| 0 <= a < b < new_names.len() implies new_names[a] != new_names[b] by {
            if b == names.len() {
                assert(names[a] != kv);
            } else {
                assert(names[a] == new_names[a]);
            }
        }
        assert forall|n: Seq<char>| #[trigger] new_names.contains(n) == (names.contains(n) || n == kv) by {
            if names.contains(n) {
                let j = choose|j: int| 0 <= j < names.len() && names[j] == n;
                assert(new_names[j] == n);
            }
            if n == kv {
                assert(new_names[names.len() as int] == n);
            }
            if new_names.contains(n) && n != kv {
                let j = choose|j: int| 0 <= j < new_names.len() && new_names[j] == n;
                assert(names[j] == n);
            }
        }
        assert forall|n: Seq<char>| #[trigger] self.font_map().contains_key(n) implies
            self.font_map()[n] == old(self).font_map().insert(
                kv,
                NativeFontRecord { id, option, metadata_charset: charset },
            )[n] by {
            lemma_first_index(names, n);
            lemma_first_index(new_names, n);
            if n == kv {
                lemma_first_index_unique(new_names, names.len() as int);
            }
        }
        assert(self.font_map() =~= old(self).font_map().insert(
            kv,
            NativeFontRecord { id, option, metadata_charset: charset },
        ));
        id
    }
}

impl NativeUserState {
    /// The record of an interned font.
    pub fn font(&self, name: &str) -> (out: Option<NativeFontRecord>)
        requires
            self.wf(),
        ensures
            out is Some == self.font_map().contains_key(name@),
            out matches Some(r) ==> r == self.font_map()[name@],
    {
        let key = chars_of(name);
        let ghost names = self.font_names@.map_values(|v: Vec<char>| v@);
        proof {
            lemma_first_index(names, key@);
        }
        let mut i: usize = 0;
        while i < self.font_names.len() && !vec_eq(&self.font_names[i], &key)
            invariant
                i <= self.font_names.len(),
                names == self.font_names@.map_values(|v: Vec<char>| v@),
                forall|j: int| 0 <= j < i ==> names[j] != key@,
            decreases self.font_names.len() - i,
        {
            i += 1;
        }
        if i < self.font_names.len() {
            assert(names[i as int] == key@);
            proof {
                lemma_first_index_unique(names, i as int);
            }
            Some(self.fonts[i])
        } else {
            assert(!names.contains(key@));
            None
        }
    }
}


pub proof fn lemma_first_free_handle(handles: Seq<i32>, h: int)
    requires
        1 <= h <= i32::MAX,
        exists|f: i32| h <= f && !#[trigger] handles.contains(f),
    ensures
        h <= first_free_handle(handles, h) <= i32::MAX,
        !handles.contains(first_free_handle(handles, h) as i32),
        forall|k: i32| h <= k < first_free_handle(handles, h) ==> #[trigger] handles.contains(k),
    decreases i32::MAX - h,
{
    if h < i32::MAX && handles.contains(h as i32) {
        let f = choose|f: i32| h <= f && !#[trigger] handles.contains(f);
        assert(f != h);
        lemma_first_free_handle(handles, h + 1);
    } else if h == i32::MAX {
        let f = choose|f: i32| h <= f && !#[trigger] handles.contains(f);
        assert(f == h);
    }
}

/// What polling a dialog reports: `Err` for an unknown handle, else its
/// oldest queued event, if any.
pub open spec fn poll_result(d: Map<i32, NativeModelessDialog>, handle: i32) -> Result<Option<[i32; 2]>, ()> {
    if !d.contains_key(handle) {
        Err(())
    } else if d[handle].events@.len() == 0 {
        Ok(None)
    } else {
        Ok(Some(d[handle].events@[0]))
    }
}

impl NativeUserState {
    /// Whether some handle at or after the search start is free; always the
    /// case unless the handles near `i32::MAX` are all taken.
    pub open spec fn dialog_handle_available(&self) -> bool {
        exists|f: i32|
            at_least_one(self.next_modeless_dialog as int) <= f && !#[trigger] self.dialog_handles@.contains(f)
    }

    /// Opens a hidden modeless dialog (at most sixteen): its handle is the first
    /// free one from the search start; sliders are clamped to `0..=128` and
    /// toggles reduced to 0 or 1.
    pub fn create_modeless_dialog(&mut self, initial: [i32; 9]) -> (out: Option<i32>)
        requires
            old(self).wf(),
            old(self).dialogs@.len() < MAX_MODELESS_DIALOGS ==> old(self).dialog_handle_available(),
        ensures
            final(self).wf(),
            old(self).dialogs@.len() >= MAX_MODELESS_DIALOGS ==> out is None && final(self).dialog_map()
                == old(self).dialog_map() && final(self).next_dialog_view() == old(self).next_dialog_view(),
            old(self).dialogs@.len() < MAX_MODELESS_DIALOGS ==> ({
                let h = first_free_handle(
                    old(self).dialog_handles@,
                    at_least_one(old(self).next_modeless_dialog as int),
                );
                &&& out == Some(h as i32)
                &&& !old(self).dialog_map().contains_key(h as i32)
                &&& final(self).dialog_map().dom() == old(self).dialog_map().dom().insert(h as i32)
                &&& forall|k: i32| k != h && old(self).dialog_map().contains_key(k) ==> final(self).dialog_map()[k]
                    == old(self).dialog_map()[k]
                &&& final(self).dialog_map()[h as i32].initial@ == normalized_initial(initial@)
                &&& !final(self).dialog_map()[h as i32].visible
                &&& final(self).dialog_map()[h as i32].events@.len() == 0
                &&& final(self).next_dialog_view() == at_least_one(
                    if h == i32::MAX { h } else { h + 1 },
                )
            }),
            final(self).screen_shake == old(self).screen_shake,
            final(self).text@ == old(self).text@,
            (NativeUserState { dialog_handles: old(self).dialog_handles, dialogs: old(self).dialogs, next_modeless_dialog: old(self).next_modeless_dialog, ..*final(self) }) == *old(self),
    {
        if self.dialogs.len() >= MAX_MODELESS_DIALOGS {
            return None;
        }
        let mut handle: i32 = if self.next_modeless_dialog < 1 {
            1
        } else {
            self.next_modeless_dialog
        };
        let ghost start = handle as int;
        proof {
            lemma_first_free_handle(self.dialog_handles@, start);
        }
        loop
            invariant
                start <= handle <= first_free_handle(self.dialog_handles@, start),
                1 <= start <= i32::MAX,
                first_free_handle(self.dialog_handles@, start) <= i32::MAX,
                !self.dialog_handles@.contains(first_free_handle(self.dialog_handles@, start) as i32),
                forall|k: i32| start <= k < first_free_handle(self.dialog_handles@, start) ==> #[trigger] self.dialog_handles@.contains(k),
            ensures
                handle == first_free_handle(self.dialog_handles@, start),
            decreases i32::MAX - handle,
        {
            let found = find_i32(&self.dialog_handles, handle);
            proof {
                lemma_first_index(self.dialog_handles@, handle);
            }
            if found.is_none() {
                break;
            }
            handle = handle + 1;
        }
        self.next_modeless_dialog = if handle == i32::MAX {
            i32::MAX
        } else {
            handle + 1
        };
        let mut values = initial;
        let mut i: usize = 0;
        while i < 9
            invariant
                i <= 9,
                forall|j: int| 0 <= j < i ==> values@[j] == normalized_initial(initial@)[j],
                forall|j: int| i <= j < 9 ==> values@[j] == initial@[j],
            decreases 9 - i,
        {
            let v = values[i];
            values[i] = if i < 5 {
                if v < 0 {
                    0
                } else if v > 128 {
                    128
                } else {
                    v
                }
            } else if v != 0 {
                1
            } else {
                0
            };
            i += 1;
        }
        assert(values@ =~= normalized_initial(initial@));
        let ghost old_handles = self.dialog_handles@;
        let dialog = NativeModelessDialog { initial: values, visible: false, events: VecDeque::new() };
        self.dialog_handles.push(handle);
        self.dialogs.push(dialog);
        proof {
            assert(self.dialog_handles@ == old_handles.push(handle));
            assert(self.dialog_handles@.drop_last() == old_handles);
            assert forall|a: int, b: int| 0 <= a < b < self.dialog_handles@.len() implies self.dialog_handles@[a]
                != self.dialog_handles@[b] by {
                if b == old_handles.len() {
                    assert(old_handles[a] != handle);
                }
            }
            assert forall|k: i32| #[trigger] self.dialog_handles@.contains(k) == (old_handles.contains(k) || k == handle) by {
                if old_handles.contains(k) {
                    let j = choose|j: int| 0 <= j < old_handles.len() && old_handles[j] == k;
                    assert(self.dialog_handles@[j] == k);
                }
                if k == handle {
                    assert(self.dialog_handles@[old_handles.len() as int] == k);
                }
                if self.dialog_handles@.contains(k) && k != handle {
                    let j = choose|j: int| 0 <= j < self.dialog_handles@.len() && self.dialog_handles@[j] == k;
                    assert(old_handles[j] == k);
                }
            }
            assert(self.dialog_map().dom() =~= old(self).dialog_map().dom().insert(handle));
            assert forall|k: i32| k != handle && old(self).dialog_map().contains_key(k) implies self.dialog_map()[k]
                == old(self).dialog_map()[k] by {
                lemma_first_index(old_handles, k);
                lemma_first_index(self.dialog_handles@, k);
            }
            lemma_first_index_unique(self.dialog_handles@, old_handles.len() as int);
        }
        Some(handle)
    }

    /// Whether some modeless dialog is shown.
    pub fn has_visible_modeless_dialog(&self) -> (out: bool)
        requires
            self.wf(),
        ensures
            out == exists|h: i32| self.dialog_map().contains_key(h) && #[trigger] self.dialog_map()[h].visible,
    {
        let mut i: usize = 0;
        while i < self.dialogs.len()
            invariant
                self.wf(),
                i <= self.dialogs.len(),
                forall|j: int| 0 <= j < i ==> !self.dialogs@[j].visible,
            decreases self.dialogs.len() - i,
        {
            if self.dialogs[i].visible {
                proof {
                    let h = self.dialog_handles@[i as int];
                    lemma_first_index_unique(self.dialog_handles@, i as int);
                    assert(self.dialog_map().contains_key(h));
                    assert(self.dialog_map()[h].visible);
                }
                return true;
            }
            i += 1;
        }
        assert forall|h: i32| self.dialog_map().contains_key(h) implies !#[trigger] self.dialog_map()[h].visible by {
            lemma_first_index(self.dialog_handles@, h);
        }
        false
    }

    /// Closes a dialog; true when it existed.
    pub fn close_modeless_dialog(&mut self, handle: i32) -> (out: bool)
        requires
            old(self).wf(),
        ensures
            final(self).wf(),
            out == old(self).dialog_map().contains_key(handle),
            final(self).dialog_map() == old(self).dialog_map().remove(handle),
            final(self).next_dialog_view() == old(self).next_dialog_view(),
            final(self).screen_shake == old(self).screen_shake,
            final(self).text@ == old(self).text@,            (NativeUserState { dialog_handles: old(self).dialog_handles, dialogs: old(self).dialogs, ..*final(self) }) == *old(self),
    {
        proof {
            lemma_first_index(self.dialog_handles@, handle);
        }
        match find_i32(&self.dialog_handles, handle) {
            None => {
                assert(self.dialog_map() =~= old(self).dialog_map().remove(handle));
                false
            },
            Some(i) => {
                let ghost old_handles = self.dialog_handles@;
                let ghost old_dialogs = self.dialogs@;
                self.dialog_handles.remove(i);
                self.dialogs.remove(i);
                proof {
                    assert(self.dialog_handles@ == old_handles.remove(i as int));
                    assert forall|a: int, b: int| 0 <= a < b < self.dialog_handles@.len() implies self.dialog_handles@[a]
                        != self.dialog_handles@[b] by {
                        let oa = if a < i { a } else { a + 1 };
                        let ob = if b < i { b } else { b + 1 };
                        assert(old_handles[oa] != old_handles[ob]);
                    }
                    assert forall|k: i32| #[trigger] self.dialog_handles@.contains(k) == (old_handles.contains(k) && k != handle) by {
                        if self.dialog_handles@.contains(k) {
                            let j = choose|j: int| 0 <= j < self.dialog_handles@.len() && self.dialog_handles@[j] == k;
                            let oj = if j < i { j } else { j + 1 };
                            assert(old_handles[oj] == k);
                            if k == handle {
                                assert(old_handles[i as int] == handle);
                            }
                        }
                        if old_handles.contains(k) && k != handle {
                            let j = choose|j: int| 0 <= j < old_handles.len() && old_handles[j] == k;
                            assert(j != i);
                            let nj = if j < i { j } else { j - 1 };
                            assert(self.dialog_handles@[nj] == k);
                        }
                    }
                    assert forall|k: i32| #[trigger] self.dialog_map().contains_key(k) implies self.dialog_map()[k]
                        == old(self).dialog_map()[k] by {
                        lemma_first_index(self.dialog_handles@, k);
                        lemma_first_index(old_handles, k);
                        let nj = first_index(self.dialog_handles@, k);
                        let oj = if nj < i { nj } else { nj + 1 };
                        lemma_first_index_unique(old_handles, oj);
                    }
                    assert(self.dialog_map() =~= old(self).dialog_map().remove(handle));
                }
                true
            },
        }
    }

    /// Shows or hides a dialog; false when there is none with that handle.
    pub fn set_modeless_dialog_visible(&mut self, handle: i32, visible: bool) -> (out: bool)
        requires
            old(self).wf(),
        ensures
            final(self).wf(),
            out == old(self).dialog_map().contains_key(handle),
            out ==> final(self).dialog_map() == old(self).dialog_map().insert(
                handle,
                NativeModelessDialog { visible, ..old(self).dialog_map()[handle] },
            ),
            !out ==> final(self).dialog_map() == old(self).dialog_map(),
            final(self).next_dialog_view() == old(self).next_dialog_view(),
            final(self).screen_shake == old(self).screen_shake,
            final(self).text@ == old(self).text@,
            (NativeUserState { dialog_handles: old(self).dialog_handles, dialogs: old(self).dialogs, ..*final(self) }) == *old(self),
    {
        proof {
            lemma_first_index(self.dialog_handles@, handle);
        }
        match find_i32(&self.dialog_handles, handle) {
            None => false,
            Some(i) => {
                let mut dialog = self.dialogs.remove(i);
                dialog.visible = visible;
                self.dialogs.insert(i, dialog);
                proof {
                    assert forall|k: i32| #[trigger] self.dialog_map().contains_key(k) implies self.dialog_map()[k]
                        == old(self).dialog_map().insert(
                        handle,
                        NativeModelessDialog { visible, ..old(self).dialog_map()[handle] },
                    )[k] by {
                        lemma_first_index(self.dialog_handles@, k);
                    }
                    assert(self.dialog_map() =~= old(self).dialog_map().insert(
                        handle,
                        NativeModelessDialog { visible, ..old(self).dialog_map()[handle] },
                    ));
                }
                true
            },
        }
    }
}


/// A control of the topmost visible modeless dialog that the pointer hit:
/// slider `index` (0..5) set to `value`, toggle `index` (5..9) clicked on
/// its left or right half, or the close button.
#[derive(Debug, Clone, Copy, PartialEq, Eq, Structural)]
pub enum ModelessControl {
    Slider { index: usize, value: i32 },
    Toggle { index: usize, left: bool },
    Close,
}

/// The topmost visible dialog: the visible one with the largest handle.
pub open spec fn is_topmost_visible(d: Map<i32, NativeModelessDialog>, h: i32) -> bool {
    &&& d.contains_key(h)
    &&& d[h].visible
    &&& forall|k: i32| #[trigger] d.contains_key(k) && d[k].visible ==> k <= h
}

/// `n` copies of `c`.
pub open spec fn repeat_char(c: char, n: nat) -> Seq<char> {
    Seq::new(n, |i: int| c)
}

/// Decimal text of an integer, with a leading `-` when negative.
pub open spec fn int_text(v: int) -> Seq<char> {
    if v < 0 {
        seq!['-'] + decimal((-v) as nat)
    } else {
        decimal(v as nat)
    }
}

/// `t` right-aligned in three columns (as it is when longer).
pub open spec fn pad3(t: Seq<char>) -> Seq<char> {
    if t.len() >= 3 {
        t
    } else {
        repeat_char(' ', (3 - t.len()) as nat) + t
    }
}

/// A slider's line: its value limited to `0..=128`, as a 24-column bar
/// (`=` filled, `-` empty) and as a number.
pub open spec fn slider_line(index: nat, raw: i32) -> Seq<char> {
    let value: int = if raw < 0 {
        0
    } else if raw > 128 {
        128
    } else {
        raw as int
    };
    let filled = (value * 24 / 128) as nat;
    "Value "@ + decimal(index) + ": ["@ + repeat_char('=', filled) + repeat_char(
        '-',
        (24 - filled) as nat,
    ) + "] "@ + pad3(decimal(value as nat))
}

/// A toggle's line: its two choices with the chosen one marked `(*)`; the
/// first two toggles offer 0 then 1, the last two 1 then 0.
pub open spec fn option_line(index: nat, raw: i32) -> Seq<char> {
    let value: nat = if raw != 0 {
        1
    } else {
        0
    };
    let (left_value, right_value): (nat, nat) = if index < 7 {
        (0, 1)
    } else {
        (1, 0)
    };
    let mark = |v: nat| if value == v {
        "(*)"@
    } else {
        "( )"@
    };
    "Option "@ + decimal(index) + ": "@ + mark(left_value) + " "@ + decimal(left_value) + "     "@
        + mark(right_value) + " "@ + decimal(right_value)
}

/// The text of a dialog's overlay, line by line: title, subtitle, five
/// slider lines, four toggle lines and the close button.
pub open spec fn modeless_text_spec(handle: i32, initial: Seq<i32>) -> Seq<Seq<char>> {
    seq!["BGI modeless control #"@ + int_text(handle as int), "Five native 0..128 controls"@]
        + Seq::new(5, |i: int| slider_line(i as nat, initial[i])) + Seq::new(
        4,
        |i: int| option_line((i + 5) as nat, initial[i + 5]),
    ) + seq!["[ Close ]"@]
}

fn repeat_into(out: &mut Vec<char>, c: char, n: usize)
    ensures
        final(out)@ == old(out)@ + repeat_char(c, n as nat),
{
    let mut i: usize = 0;
    while i < n
        invariant
            i <= n,
            out@ == old(out)@ + repeat_char(c, i as nat),
        decreases n - i,
    {
        out.push(c);
        assert(old(out)@ + repeat_char(c, i as nat + 1) =~= (old(out)@ + repeat_char(c, i as nat)).push(c));
        i += 1;
    }
}

fn append_str(out: &mut Vec<char>, s: &str)
    ensures
        final(out)@ == old(out)@ + s@,
{
    let mut t = chars_of(s);
    out.append(&mut t);
}

fn append_digits(out: &mut Vec<char>, n: u32)
    ensures
        final(out)@ == old(out)@ + decimal(n as nat),
{
    let mut t = u32_decimal(n);
    out.append(&mut t);
}

fn slider_text(index: usize, raw: i32) -> (line: String)
    requires
        index < 5,
    ensures
        line@ == slider_line(index as nat, raw),
{
    let value: u32 = if raw < 0 {
        0
    } else if raw > 128 {
        128
    } else {
        raw as u32
    };
    let filled: usize = (value * 24 / 128) as usize;
    let mut out: Vec<char> = Vec::new();
    append_str(&mut out, "Value ");
    append_digits(&mut out, index as u32);
    append_str(&mut out, ": [");
    repeat_into(&mut out, '=', filled);
    repeat_into(&mut out, '-', 24 - filled);
    append_str(&mut out, "] ");
    let digits = u32_decimal(value);
    if digits.len() < 3 {
        repeat_into(&mut out, ' ', 3 - digits.len());
    }
    append_digits(&mut out, value);
    let ghost d = decimal(value as nat);
    assert(out@ =~= slider_line(index as nat, raw));
    string_of(&out)
}

fn option_mark(out: &mut Vec<char>, chosen: bool)
    ensures
        final(out)@ == old(out)@ + (if chosen {
            "(*)"@
        } else {
            "( )"@
        }),
{
    if chosen {
        append_str(out, "(*)");
    } else {
        append_str(out, "( )");
    }
}

fn option_text(index: usize, raw: i32) -> (line: String)
    requires
        5 <= index < 9,
    ensures
        line@ == option_line(index as nat, raw),
{
    let value: u32 = if raw != 0 {
        1
    } else {
        0
    };
    let (left_value, right_value): (u32, u32) = if index < 7 {
        (0, 1)
    } else {
        (1, 0)
    };
    let mut out: Vec<char> = Vec::new();
    append_str(&mut out, "Option ");
    append_digits(&mut out, index as u32);
    append_str(&mut out, ": ");
    option_mark(&mut out, value == left_value);
    append_str(&mut out, " ");
    append_digits(&mut out, left_value);
    append_str(&mut out, "     ");
    option_mark(&mut out, value == right_value);
    append_str(&mut out, " ");
    append_digits(&mut out, right_value);
    assert(out@ =~= option_line(index as nat, raw));
    string_of(&out)
}

/// An integer as decimal text, with a leading `-` when negative.
pub fn int_text_string(v: i32) -> (t: String)
    ensures
        t@ == int_text(v as int),
{
    let mut out: Vec<char> = Vec::new();
    if v < 0 {
        out.push('-');
        let magnitude: u32 = (-(v as i64)) as u32;
        append_digits(&mut out, magnitude);
    } else {
        append_digits(&mut out, v as u32);
    }
    assert(out@ =~= int_text(v as int));
    string_of(&out)
}

/// The text of a dialog's overlay (see [`modeless_text_spec`]).
pub fn modeless_dialog_text(handle: i32, initial: [i32; 9]) -> (lines: Vec<String>)
    ensures
        lines@.map_values(|l: String| l@) == modeless_text_spec(handle, initial@),
{
    let mut title: Vec<char> = Vec::new();
    append_str(&mut title, "BGI modeless control #");
    if handle < 0 {
        title.push('-');
        let magnitude: u32 = (-(handle as i64)) as u32;
        append_digits(&mut title, magnitude);
    } else {
        append_digits(&mut title, handle as u32);
    }
    assert(title@ =~= "BGI modeless control #"@ + int_text(handle as int));
    let ghost spec = modeless_text_spec(handle, initial@);
    assert(spec.len() == 12);
    assert(spec[0] == "BGI modeless control #"@ + int_text(handle as int));
    assert(spec[1] == "Five native 0..128 controls"@);
    assert(forall|i: int| 0 <= i < 5 ==> #[trigger] spec[i + 2] == slider_line(i as nat, initial@[i]));
    assert(forall|i: int| 5 <= i < 9 ==> #[trigger] spec[i + 2] == option_line(i as nat, initial@[i]));
    assert(spec[11] == "[ Close ]"@);
    let mut lines: Vec<String> = Vec::new();
    lines.push(string_of(&title));
    lines.push(string_of(&chars_of("Five native 0..128 controls")));
    assert(lines@.map_values(|l: String| l@) =~= spec.take(2));
    let mut i: usize = 0;
    while i < 9
        invariant
            i <= 9,
            lines@.len() == i + 2,
            spec == modeless_text_spec(handle, initial@),
            spec.len() == 12,
            forall|i: int| 0 <= i < 5 ==> #[trigger] spec[i + 2] == slider_line(i as nat, initial@[i]),
            forall|i: int| 5 <= i < 9 ==> #[trigger] spec[i + 2] == option_line(i as nat, initial@[i]),
            lines@.map_values(|l: String| l@) == spec.take(i as int + 2),
        decreases 9 - i,
    {
        let line = if i < 5 {
            slider_text(i, initial[i])
        } else {
            option_text(i, initial[i])
        };
        lines.push(line);
        assert(lines@.map_values(|l: String| l@) =~= spec.take(i as int + 3));
        i += 1;
    }
    let ghost before = lines@;
    lines.push(string_of(&chars_of("[ Close ]")));
    assert(before.map_values(|l: String| l@) == spec.take(11));
    assert(lines@.map_values(|l: String| l@) =~= before.map_values(|l: String| l@).push("[ Close ]"@));
    assert(spec.take(11).push(spec[11]) =~= spec);
    lines
}

/// The `[control, value]` event a control raises and the value it stores
/// (none for the close button).
pub open spec fn control_event(c: ModelessControl) -> [i32; 2] {
    match c {
        ModelessControl::Slider { index, value } => [index as i32, clamp_slider(value)],
        ModelessControl::Toggle { index, left } => [index as i32, toggle_value(index, left)],
        ModelessControl::Close => [-1i32, 0i32],
    }
}

/// A slider value clamped to `0..=128`.
pub open spec fn clamp_slider(v: i32) -> i32 {
    if v < 0 {
        0
    } else if v > 128 {
        128
    } else {
        v
    }
}

/// The value a toggle takes: the first two toggles are 1 on their right
/// half, the last two 1 on their left half.
pub open spec fn toggle_value(index: usize, left: bool) -> i32 {
    if index < 7 {
        if left { 0 } else { 1 }
    } else {
        if left { 1 } else { 0 }
    }
}

/// A dialog after a control was used: the value stored (sliders and
/// toggles), the dialog hidden (close), the event queued.
pub open spec fn dialog_after_control(d: NativeModelessDialog, c: ModelessControl, after: NativeModelessDialog) -> bool {
    &&& after.events@ == d.events@.push(control_event(c))
    &&& match c {
        ModelessControl::Slider { index, .. } => after.visible == d.visible && after.initial@ == d.initial@.update(
            index as int,
            control_event(c)[1],
        ),
        ModelessControl::Toggle { index, .. } => after.visible == d.visible && after.initial@ == d.initial@.update(
            index as int,
            control_event(c)[1],
        ),
        ModelessControl::Close => !after.visible && after.initial == d.initial,
    }
}


impl NativeUserState {
    /// The overlay text of the topmost visible dialog (see
    /// [`modeless_text_spec`]); none when no dialog is visible.
    pub fn modeless_dialog_text_lines(&self) -> (lines: Vec<String>)
        requires
            self.wf(),
        ensures
            !(exists|h: i32| #[trigger] is_topmost_visible(self.dialog_map(), h)) ==> lines@.len() == 0,
            forall|h: i32|
                #[trigger] is_topmost_visible(self.dialog_map(), h) ==> lines@.map_values(|l: String| l@)
                    == modeless_text_spec(h, self.dialog_map()[h].initial@),
    {
        match self.topmost_visible_modeless_dialog() {
            Some((handle, initial)) => {
                proof {
                    assert forall|h: i32| #[trigger] is_topmost_visible(self.dialog_map(), h) implies h == handle by {
                        assert(self.dialog_map().contains_key(handle) && self.dialog_map()[handle].visible);
                        assert(self.dialog_map().contains_key(h) && self.dialog_map()[h].visible);
                    }
                }
                modeless_dialog_text(handle, initial)
            },
            None => Vec::new(),
        }
    }

    /// The handle and control values of the topmost visible modeless dialog.
    pub fn topmost_visible_modeless_dialog(&self) -> (out: Option<(i32, [i32; 9])>)
        requires
            self.wf(),
        ensures
            out is None <==> !exists|h: i32| #[trigger] is_topmost_visible(self.dialog_map(), h),
            out matches Some(r) ==> is_topmost_visible(self.dialog_map(), r.0) && r.1 == self.dialog_map()[r.0].initial,
    {
        let mut best: Option<usize> = None;
        let mut i: usize = 0;
        while i < self.dialogs.len()
            invariant
                self.wf(),
                i <= self.dialogs@.len(),
                best matches Some(b) ==> b < i && self.dialogs@[b as int].visible && forall|j: int|
                    0 <= j < i && self.dialogs@[j].visible ==> self.dialog_handles@[j] <= self.dialog_handles@[b as int],
                best is None ==> forall|j: int| 0 <= j < i ==> !self.dialogs@[j].visible,
            decreases self.dialogs.len() - i,
        {
            if self.dialogs[i].visible {
                match best {
                    Some(b) => {
                        if self.dialog_handles[i] > self.dialog_handles[b] {
                            best = Some(i);
                        }
                    },
                    None => {
                        best = Some(i);
                    },
                }
            }
            i += 1;
        }
        match best {
            Some(b) => {
                let handle = self.dialog_handles[b];
                proof {
                    lemma_first_index(self.dialog_handles@, handle);
                    assert(first_index(self.dialog_handles@, handle) == b as int) by {
                        lemma_first_index_unique(self.dialog_handles@, b as int);
                    }
                    assert forall|k: i32| #[trigger] self.dialog_map().contains_key(k) && self.dialog_map()[k].visible implies k
                        <= handle by {
                        lemma_first_index(self.dialog_handles@, k);
                    }
                    assert(is_topmost_visible(self.dialog_map(), handle));
                }
                Some((handle, self.dialogs[b].initial))
            },
            None => {
                proof {
                    assert forall|h: i32| !is_topmost_visible(self.dialog_map(), h) by {
                        if self.dialog_map().contains_key(h) {
                            lemma_first_index(self.dialog_handles@, h);
                        }
                    }
                }
                None
            },
        }
    }

    /// Applies a control of the topmost visible modeless dialog; false (and
    /// no change) when no dialog is visible.
    pub fn apply_modeless_control(&mut self, control: ModelessControl) -> (applied: bool)
        requires
            old(self).wf(),
            control matches ModelessControl::Slider { index, .. } ==> index < 5,
            control matches ModelessControl::Toggle { index, .. } ==> 5 <= index < 9,
        ensures
            final(self).wf(),
            final(self).next_dialog_view() == old(self).next_dialog_view(),
            final(self).screen_shake == old(self).screen_shake,
            final(self).text@ == old(self).text@,
            applied == exists|h: i32| #[trigger] is_topmost_visible(old(self).dialog_map(), h),
            !applied ==> final(self).dialog_map() == old(self).dialog_map(),
            applied ==> exists|h: i32|
                #[trigger] is_topmost_visible(old(self).dialog_map(), h) && final(self).dialog_map().dom()
                    == old(self).dialog_map().dom() && (forall|k: i32|
                    k != h && old(self).dialog_map().contains_key(k) ==> final(self).dialog_map()[k]
                        == old(self).dialog_map()[k]) && dialog_after_control(
                    old(self).dialog_map()[h],
                    control,
                    final(self).dialog_map()[h],
                ),
    {
        let mut best: Option<usize> = None;
        let mut i: usize = 0;
        while i < self.dialogs.len()
            invariant
                self.wf(),
                *self == *old(self),
                i <= self.dialogs@.len(),
                best matches Some(b) ==> b < i && self.dialogs@[b as int].visible && forall|j: int|
                    0 <= j < i && self.dialogs@[j].visible ==> self.dialog_handles@[j] <= self.dialog_handles@[b as int],
                best is None ==> forall|j: int| 0 <= j < i ==> !self.dialogs@[j].visible,
            decreases self.dialogs.len() - i,
        {
            if self.dialogs[i].visible {
                match best {
                    Some(b) => {
                        if self.dialog_handles[i] > self.dialog_handles[b] {
                            best = Some(i);
                        }
                    },
                    None => {
                        best = Some(i);
                    },
                }
            }
            i += 1;
        }
        let b = match best {
            Some(b) => b,
            None => {
                proof {
                    assert forall|h: i32| !is_topmost_visible(self.dialog_map(), h) by {
                        if self.dialog_map().contains_key(h) {
                            lemma_first_index(self.dialog_handles@, h);
                        }
                    }
                }
                return false;
            },
        };
        let handle = self.dialog_handles[b];
        proof {
            lemma_first_index(self.dialog_handles@, handle);
            assert(first_index(self.dialog_handles@, handle) == b as int) by {
                lemma_first_index_unique(self.dialog_handles@, b as int);
            }
            assert(is_topmost_visible(self.dialog_map(), handle)) by {
                assert forall|k: i32| #[trigger] self.dialog_map().contains_key(k) && self.dialog_map()[k].visible implies k
                    <= handle by {
                    lemma_first_index(self.dialog_handles@, k);
                }
            }
        }
        let ghost before = self.dialog_map()[handle];
        let mut dialog = self.dialogs.remove(b);
        match control {
            ModelessControl::Slider { index, value } => {
                let v = if value < 0 { 0 } else if value > 128 { 128 } else { value };
                dialog.initial[index] = v;
                dialog.events.push_back([index as i32, v]);
            },
            ModelessControl::Toggle { index, left } => {
                let v = if index < 7 {
                    if left { 0 } else { 1 }
                } else {
                    if left { 1 } else { 0 }
                };
                dialog.initial[index] = v;
                dialog.events.push_back([index as i32, v]);
            },
            ModelessControl::Close => {
                dialog.visible = false;
                dialog.events.push_back([-1, 0]);
            },
        }
        let ghost after = dialog;
        assert(after.events@ =~= before.events@.push(control_event(control)));
        assert(dialog_after_control(before, control, after));
        self.dialogs.insert(b, dialog);
        proof {
            assert forall|k: i32| #[trigger] self.dialog_map().contains_key(k) implies self.dialog_map()[k]
                == old(self).dialog_map().insert(handle, after)[k] by {
                lemma_first_index(self.dialog_handles@, k);
            }
            assert(self.dialog_map() =~= old(self).dialog_map().insert(handle, after));
            assert(self.dialog_map().dom() =~= old(self).dialog_map().dom());
        }
        true
    }
}

impl NativeUserState {
    /// Takes the oldest queued event of a dialog; `Err` when there is no such dialog.
    pub fn poll_modeless_dialog(&mut self, handle: i32) -> (out: Result<Option<[i32; 2]>, ()>)
        requires
            old(self).wf(),
        ensures
            final(self).wf(),
            out == poll_result(old(self).dialog_map(), handle),
            final(self).next_dialog_view() == old(self).next_dialog_view(),
            final(self).screen_shake == old(self).screen_shake,
            final(self).text@ == old(self).text@,
            !old(self).dialog_map().contains_key(handle) ==> out is Err && final(self).dialog_map()
                == old(self).dialog_map(),
            old(self).dialog_map().contains_key(handle) ==> ({
                let d = old(self).dialog_map()[handle];
                &&& d.events@.len() == 0 ==> out == Ok::<Option<[i32; 2]>, ()>(None)
                    && final(self).dialog_map() == old(self).dialog_map()
                &&& d.events@.len() > 0 ==> out == Ok::<Option<[i32; 2]>, ()>(Some(d.events@[0]))
                    && final(self).dialog_map().dom() == old(self).dialog_map().dom()
                    && (forall|k: i32| k != handle && old(self).dialog_map().contains_key(k) ==> final(self).dialog_map()[k]
                        == old(self).dialog_map()[k])
                    && final(self).dialog_map()[handle].events@ == d.events@.drop_first()
                    && final(self).dialog_map()[handle].initial == d.initial
                    && final(self).dialog_map()[handle].visible == d.visible
            }),
            (NativeUserState { dialog_handles: old(self).dialog_handles, dialogs: old(self).dialogs, next_modeless_dialog: old(self).next_modeless_dialog, ..*final(self) }) == *old(self),
    {
        proof {
            lemma_first_index(self.dialog_handles@, handle);
        }
        match find_i32(&self.dialog_handles, handle) {
            None => Err(()),
            Some(i) => {
                if self.dialogs[i].events.len() == 0 {
                    return Ok(None);
                }
                let mut dialog = self.dialogs.remove(i);
                let event = dialog.events.pop_front();
                self.dialogs.insert(i, dialog);
                proof {
                    assert forall|k: i32| k != handle && #[trigger] old(self).dialog_map().contains_key(k) implies self.dialog_map()[k]
                        == old(self).dialog_map()[k] by {
                        lemma_first_index(self.dialog_handles@, k);
                    }
                    assert(self.dialog_map().dom() =~= old(self).dialog_map().dom());
                }
                Ok(event)
            },
        }
    }
}


/// std's `char::is_control` (general category Cc).
pub open spec fn is_control_char(c: char) -> bool {
    ('\u{0}' <= c && c <= '\u{1f}') || ('\u{7f}' <= c && c <= '\u{9f}')
}

fn char_is_control(c: char) -> (out: bool)
    ensures
        out == is_control_char(c),
{
    ('\u{0}' <= c && c <= '\u{1f}') || ('\u{7f}' <= c && c <= '\u{9f}')
}

/// Typed text appended to an edit buffer: control characters are skipped;
/// appending stops at the first character that would exceed `max_chars`
/// characters or `max_bytes` bytes of Shift_JIS.
pub open spec fn edit_append(candidate: Seq<char>, input: Seq<char>, max_chars: nat, max_bytes: nat) -> Seq<char>
    decreases input.len(),
{
    if input.len() == 0 {
        candidate
    } else if is_control_char(input[0]) {
        edit_append(candidate, input.drop_first(), max_chars, max_bytes)
    } else if candidate.len() >= max_chars {
        candidate
    } else if shift_jis_encoded_len(candidate.push(input[0])) > max_bytes {
        candidate
    } else {
        edit_append(candidate.push(input[0]), input.drop_first(), max_chars, max_bytes)
    }
}

/// The longest character prefix of `text` whose Shift_JIS form fits in
/// `max_bytes`, grown one character at a time; `text` itself when it fits.
pub open spec fn sjis_truncated(text: Seq<char>, max_bytes: nat) -> Seq<char> {
    if shift_jis_encoded_len(text) <= max_bytes {
        text
    } else {
        sjis_prefix(text, 0, max_bytes)
    }
}

/// Growing from the first `n` characters: the prefix stops before the first
/// character that makes the encoding exceed `max_bytes`.
pub open spec fn sjis_prefix(text: Seq<char>, n: int, max_bytes: nat) -> Seq<char>
    decreases text.len() - n,
{
    if n < 0 || n >= text.len() || shift_jis_encoded_len(text.take(n + 1)) > max_bytes {
        text.take(if n < 0 { 0 } else if n > text.len() { text.len() as int } else { n })
    } else {
        sjis_prefix(text, n + 1, max_bytes)
    }
}

/// Truncates `text` at a character boundary so that its Shift_JIS form fits in `max_bytes`.
pub fn truncate_shift_jis(text: &str, max_bytes: usize) -> (out: String)
    ensures
        out@ == sjis_truncated(text@, max_bytes as nat),
{
    if shift_jis_len(text) <= max_bytes {
        return string_of(&chars_of(text));
    }
    let chars = chars_of(text);
    let mut n: usize = 0;
    while n < chars.len()
        invariant
            n <= chars.len(),
            chars@ == text@,
            sjis_prefix(text@, 0, max_bytes as nat) == sjis_prefix(text@, n as int, max_bytes as nat),
        ensures
            n <= chars.len(),
            chars@ == text@,
            sjis_prefix(text@, 0, max_bytes as nat) == text@.take(n as int),
        decreases chars.len() - n,
    {
        let candidate = crate::text::vec_take(&chars, n + 1);
        if shift_jis_len(string_of(&candidate).as_str()) > max_bytes {
            break;
        }
        n += 1;
    }
    string_of(&crate::text::vec_take(&chars, n))
}

impl NativeUserState {
    /// Whether the edit box takes keyboard input: active, visible and focused.
    pub open spec fn edit_accepts_keys(&self) -> bool {
        self.edit.active && self.edit.visible && self.edit.focused
    }

    /// Applies an edit key: Tab hides and unfocuses, Enter unfocuses (and
    /// hides when configured to), Backspace removes the last character. True
    /// when the key was consumed.
    pub fn handle_edit_key(&mut self, code: KeyCode) -> (consumed: bool)
        ensures
            final(self).wf() == old(self).wf(),
            final(self).dialog_map() == old(self).dialog_map(),
            final(self).screen_shake == old(self).screen_shake,
            consumed == (old(self).edit_accepts_keys() && code != KeyCode::Other),
            !consumed ==> final(self).text@ == old(self).text@ && final(self).edit.visible
                == old(self).edit.visible && final(self).edit.focused == old(self).edit.focused,
            consumed && code == KeyCode::Tab ==> !final(self).edit.visible && !final(self).edit.focused
                && final(self).text@ == old(self).text@,
            consumed && (code == KeyCode::Enter || code == KeyCode::NumpadEnter) ==> !final(self).edit.focused
                && final(self).edit.visible == (old(self).edit.visible && !old(self).edit.hide_on_enter)
                && final(self).text@ == old(self).text@,
            consumed && code == KeyCode::Backspace ==> final(self).text@ == if old(self).text@.len() == 0 {
                old(self).text@
            } else {
                old(self).text@.drop_last()
            } && final(self).edit.visible == old(self).edit.visible && final(self).edit.focused
                == old(self).edit.focused,
    {
        if !self.edit.active || !self.edit.visible || !self.edit.focused {
            return false;
        }
        match code {
            KeyCode::Tab => {
                self.edit.visible = false;
                self.edit.focused = false;
                true
            },
            KeyCode::Enter | KeyCode::NumpadEnter => {
                self.edit.focused = false;
                if self.edit.hide_on_enter {
                    self.edit.visible = false;
                }
                true
            },
            KeyCode::Backspace => {
                let _ = crate::text::pop_char(&mut self.text);
                true
            },
            KeyCode::Other => false,
        }
    }

    /// Appends typed text to the edit buffer when it accepts printable input.
    pub fn append_edit_text(&mut self, text: &str) -> (accepted: bool)
        ensures
            final(self).wf() == old(self).wf(),
            final(self).dialog_map() == old(self).dialog_map(),
            final(self).screen_shake == old(self).screen_shake,
            accepted == (old(self).edit_accepts_keys() && old(self).edit.printable_input_enabled),
            accepted ==> final(self).text@ == edit_append(
                old(self).text@,
                text@,
                old(self).edit.max_chars as nat,
                MAX_EDIT_TEXT_BYTES as nat,
            ),
            !accepted ==> final(self).text@ == old(self).text@,
    {
        if !self.edit.active || !self.edit.visible || !self.edit.focused || !self.edit.printable_input_enabled {
            return false;
        }
        let input = chars_of(text);
        let mut candidate = chars_of(self.text.as_str());
        let max_chars = self.edit.max_chars;
        let mut i: usize = 0;
        assert(input@.skip(0) == input@);
        while i < input.len()
            invariant
                i <= input.len(),
                edit_append(self.text@, text@, max_chars as nat, MAX_EDIT_TEXT_BYTES as nat)
                    == edit_append(candidate@, input@.skip(i as int), max_chars as nat, MAX_EDIT_TEXT_BYTES as nat),
                input@ == text@,
            ensures
                edit_append(self.text@, text@, max_chars as nat, MAX_EDIT_TEXT_BYTES as nat) == candidate@,
            decreases input.len() - i,
        {
            assert(input@.skip(i as int).drop_first() == input@.skip(i as int + 1));
            let ch = input[i];
            if char_is_control(ch) {
                i += 1;
                continue;
            }
            if candidate.len() >= max_chars {
                break;
            }
            let mut next = crate::text::vec_take(&candidate, candidate.len());
            next.push(ch);
            assert(candidate@.take(candidate@.len() as int) == candidate@);
            if shift_jis_len(string_of(&next).as_str()) > MAX_EDIT_TEXT_BYTES {
                break;
            }
            candidate = next;
            i += 1;
        }
        self.text = string_of(&candidate);
        true
    }
}


impl RuntimeTraceApi {
    /// The runtime's consistency: that of its user-interface state.
    pub open spec fn wf(&self) -> bool {
        self.native_user.wf()
    }

    /// Whether a screen shake is running.
    pub fn has_active_native_screen_shake(&self) -> (out: bool)
        ensures
            out == self.native_user.screen_shake.active,
    {
        self.native_user.screen_shake.active
    }

    /// Stops the screen shake and clears the applied offset.
    pub fn cancel_native_screen_shake(&mut self)
        requires
            old(self).wf(),
        ensures
            final(self).wf(),
            final(self).native_user == (NativeUserState {
                screen_shake: old(self).native_user.screen_shake.cancelled(),
                ..old(self).native_user
            }),
            final(self).screen_shake_offset == (0i64, 0i64),
            final(self).same_outside_user(*old(self)),
    {
        self.native_user.screen_shake.cancel();
        self.screen_shake_offset = (0, 0);
    }

    /// Seeds the script's CRT generator.
    pub fn seed_native_crt_rng(&mut self, seed: u32)
        requires
            old(self).wf(),
        ensures
            final(self).wf(),
            final(self).native_user == (NativeUserState { crt_rng_seed: seed, ..old(self).native_user }),
            final(self).screen_shake_offset == old(self).screen_shake_offset,
            final(self).same_outside_user(*old(self)),
    {
        self.native_user.crt_rng_seed = seed;
    }

    /// The script CRT generator's next value.
    pub fn next_native_crt_rand(&mut self) -> (out: i32)
        requires
            old(self).wf(),
        ensures
            final(self).wf(),
            final(self).native_user == (NativeUserState {
                crt_rng_seed: crt_next_seed(old(self).native_user.crt_rng_seed),
                ..old(self).native_user
            }),
            out as int == crt_output(crt_next_seed(old(self).native_user.crt_rng_seed)),
            final(self).screen_shake_offset == old(self).screen_shake_offset,
            final(self).same_outside_user(*old(self)),
    {
        msvc_rand(&mut self.native_user.crt_rng_seed)
    }

    /// Advances the screen shake by `elapsed_ms` and records its offset;
    /// returns where the bound cursor object goes (object, x, y): the
    /// pointer position plus the binding's offset, when both exist.
    pub fn tick_native_user_state(&mut self, elapsed_ms: u64) -> (cursor: Option<(i32, i32, i32)>)
        requires
            old(self).wf(),
            old(self).native_user.cursor_object matches Some(c) ==> (old(self).mouse_pos matches Some(p)
                ==> i32::MIN <= p.0 + c.1 <= i32::MAX && i32::MIN <= p.1 + c.2 <= i32::MAX),
        ensures
            final(self).wf(),
            ({
                let (shake, seed) = old(self).native_user.screen_shake.tick_spec(
                    elapsed_ms,
                    old(self).native_user.crt_rng_seed,
                );
                &&& final(self).native_user == (NativeUserState {
                    screen_shake: shake,
                    crt_rng_seed: seed,
                    ..old(self).native_user
                })
                &&& final(self).screen_shake_offset == shake.offset
            }),
            cursor == (match (old(self).native_user.cursor_object, old(self).mouse_pos) {
                (Some(c), Some(p)) => Some((c.0, (p.0 + c.1) as i32, (p.1 + c.2) as i32)),
                _ => None,
            }),
            final(self).same_outside_user(*old(self)),
    {
        let offset = self.native_user.screen_shake.tick(elapsed_ms, &mut self.native_user.crt_rng_seed);
        self.screen_shake_offset = offset;
        match (self.native_user.cursor_object, self.mouse_pos) {
            (Some(c), Some(p)) => Some((c.0, p.0 + c.1, p.1 + c.2)),
            _ => None,
        }
    }

    /// Applies an edit key to the edit box (see
    /// [`NativeUserState::handle_edit_key`]).
    pub fn handle_native_edit_key(&mut self, code: KeyCode) -> (consumed: bool)
        requires
            old(self).wf(),
        ensures
            final(self).wf(),
            final(self).native_user.dialog_map() == old(self).native_user.dialog_map(),
            final(self).native_user.screen_shake == old(self).native_user.screen_shake,
            consumed == (old(self).native_user.edit_accepts_keys() && code != KeyCode::Other),
            !consumed ==> final(self).native_user.text@ == old(self).native_user.text@
                && final(self).native_user.edit.visible == old(self).native_user.edit.visible
                && final(self).native_user.edit.focused == old(self).native_user.edit.focused,
            consumed && code == KeyCode::Tab ==> !final(self).native_user.edit.visible
                && !final(self).native_user.edit.focused && final(self).native_user.text@
                == old(self).native_user.text@,
            consumed && (code == KeyCode::Enter || code == KeyCode::NumpadEnter)
                ==> !final(self).native_user.edit.focused && final(self).native_user.edit.visible == (
            old(self).native_user.edit.visible && !old(self).native_user.edit.hide_on_enter)
                && final(self).native_user.text@ == old(self).native_user.text@,
            consumed && code == KeyCode::Backspace ==> final(self).native_user.text@ == (if old(
                self,
            ).native_user.text@.len() == 0 {
                old(self).native_user.text@
            } else {
                old(self).native_user.text@.drop_last()
            }),
            final(self).screen_shake_offset == old(self).screen_shake_offset,
            final(self).same_outside_user(*old(self)),
    {
        self.native_user.handle_edit_key(code)
    }

    /// Appends typed text to the edit box (see
    /// [`NativeUserState::append_edit_text`]).
    pub fn append_native_edit_text(&mut self, text: &str) -> (accepted: bool)
        requires
            old(self).wf(),
        ensures
            final(self).wf(),
            final(self).native_user.dialog_map() == old(self).native_user.dialog_map(),
            final(self).native_user.screen_shake == old(self).native_user.screen_shake,
            accepted == (old(self).native_user.edit_accepts_keys()
                && old(self).native_user.edit.printable_input_enabled),
            accepted ==> final(self).native_user.text@ == edit_append(
                old(self).native_user.text@,
                text@,
                old(self).native_user.edit.max_chars as nat,
                MAX_EDIT_TEXT_BYTES as nat,
            ),
            !accepted ==> final(self).native_user.text@ == old(self).native_user.text@,
            final(self).screen_shake_offset == old(self).screen_shake_offset,
            final(self).same_outside_user(*old(self)),
    {
        self.native_user.append_edit_text(text)
    }

    /// Whether some modeless dialog is visible.
    pub fn has_visible_user_modeless_dialog(&self) -> (out: bool)
        requires
            self.wf(),
        ensures
            out == exists|h: i32|
                self.native_user.dialog_map().contains_key(h) && #[trigger] self.native_user.dialog_map()[h].visible,
    {
        self.native_user.has_visible_modeless_dialog()
    }

    /// Opens a hidden modeless dialog (see
    /// [`NativeUserState::create_modeless_dialog`]).
    pub fn create_user_modeless_dialog(&mut self, initial: [i32; 9]) -> (out: Option<i32>)
        requires
            old(self).wf(),
            old(self).native_user.dialogs@.len() < MAX_MODELESS_DIALOGS
                ==> old(self).native_user.dialog_handle_available(),
        ensures
            final(self).wf(),
            old(self).native_user.dialogs@.len() >= MAX_MODELESS_DIALOGS ==> out is None
                && final(self).native_user.dialog_map() == old(self).native_user.dialog_map(),
            old(self).native_user.dialogs@.len() < MAX_MODELESS_DIALOGS ==> ({
                let n = old(self).native_user;
                let h = first_free_handle(n.dialog_handles@, at_least_one(n.next_modeless_dialog as int));
                &&& out == Some(h as i32)
                &&& !n.dialog_map().contains_key(h as i32)
                &&& final(self).native_user.dialog_map().dom() == n.dialog_map().dom().insert(h as i32)
                &&& forall|k: i32|
                    k != h && n.dialog_map().contains_key(k) ==> final(self).native_user.dialog_map()[k]
                        == n.dialog_map()[k]
                &&& final(self).native_user.dialog_map()[h as i32].initial@ == normalized_initial(initial@)
                &&& !final(self).native_user.dialog_map()[h as i32].visible
                &&& final(self).native_user.dialog_map()[h as i32].events@.len() == 0
            }),
            final(self).native_user.screen_shake == old(self).native_user.screen_shake,
            final(self).screen_shake_offset == old(self).screen_shake_offset,
            final(self).same_outside_user(*old(self)),
            (NativeUserState { dialog_handles: old(self).native_user.dialog_handles, dialogs: old(self).native_user.dialogs, next_modeless_dialog: old(self).native_user.next_modeless_dialog, ..final(self).native_user }) == old(self).native_user,
            old(self).native_user.dialogs@.len() >= MAX_MODELESS_DIALOGS ==> final(self).native_user.next_dialog_view()
                == old(self).native_user.next_dialog_view(),
            old(self).native_user.dialogs@.len() < MAX_MODELESS_DIALOGS ==> final(self).native_user.next_dialog_view()
                == ({
                    let h = first_free_handle(
                        old(self).native_user.dialog_handles@,
                        at_least_one(old(self).native_user.next_modeless_dialog as int),
                    );
                    at_least_one(if h == i32::MAX { h } else { h + 1 })
                }),
    {
        self.native_user.create_modeless_dialog(initial)
    }

    /// Closes a modeless dialog; false when the handle is unknown.
    pub fn close_user_modeless_dialog(&mut self, handle: i32) -> (out: bool)
        requires
            old(self).wf(),
        ensures
            final(self).wf(),
            out == old(self).native_user.dialog_map().contains_key(handle),
            final(self).native_user.dialog_map() == old(self).native_user.dialog_map().remove(handle),
            final(self).native_user.screen_shake == old(self).native_user.screen_shake,
            final(self).screen_shake_offset == old(self).screen_shake_offset,
            final(self).same_outside_user(*old(self)),
            (NativeUserState { dialog_handles: old(self).native_user.dialog_handles, dialogs: old(self).native_user.dialogs, next_modeless_dialog: old(self).native_user.next_modeless_dialog, ..final(self).native_user }) == old(self).native_user,
            final(self).native_user.next_dialog_view() == old(self).native_user.next_dialog_view(),
    {
        self.native_user.close_modeless_dialog(handle)
    }

    /// Shows or hides a modeless dialog; false when the handle is unknown.
    pub fn set_user_modeless_dialog_visible(&mut self, handle: i32, visible: bool) -> (out: bool)
        requires
            old(self).wf(),
        ensures
            final(self).wf(),
            out == old(self).native_user.dialog_map().contains_key(handle),
            out ==> final(self).native_user.dialog_map() == old(self).native_user.dialog_map().insert(
                handle,
                NativeModelessDialog { visible, ..old(self).native_user.dialog_map()[handle] },
            ),
            !out ==> final(self).native_user.dialog_map() == old(self).native_user.dialog_map(),
            final(self).native_user.screen_shake == old(self).native_user.screen_shake,
            final(self).screen_shake_offset == old(self).screen_shake_offset,
            final(self).same_outside_user(*old(self)),
            (NativeUserState { dialog_handles: old(self).native_user.dialog_handles, dialogs: old(self).native_user.dialogs, next_modeless_dialog: old(self).native_user.next_modeless_dialog, ..final(self).native_user }) == old(self).native_user,
            final(self).native_user.next_dialog_view() == old(self).native_user.next_dialog_view(),
    {
        self.native_user.set_modeless_dialog_visible(handle, visible)
    }

    /// Takes the oldest queued event of a modeless dialog: `Err` for an
    /// unknown handle, `Ok(None)` when nothing is queued.
    pub fn poll_user_modeless_dialog(&mut self, handle: i32) -> (out: Result<Option<[i32; 2]>, ()>)
        requires
            old(self).wf(),
        ensures
            final(self).wf(),
            out == poll_result(old(self).native_user.dialog_map(), handle),
            !old(self).native_user.dialog_map().contains_key(handle) ==> out is Err
                && final(self).native_user.dialog_map() == old(self).native_user.dialog_map(),
            old(self).native_user.dialog_map().contains_key(handle) ==> ({
                let d = old(self).native_user.dialog_map()[handle];
                let before = old(self).native_user.dialog_map();
                let after = final(self).native_user.dialog_map();
                &&& d.events@.len() == 0 ==> out == Ok::<Option<[i32; 2]>, ()>(None) && after == before
                &&& d.events@.len() > 0 ==> out == Ok::<Option<[i32; 2]>, ()>(Some(d.events@[0]))
                    && after.dom() == before.dom() && (forall|k: i32|
                    k != handle && before.contains_key(k) ==> after[k] == before[k])
                    && after[handle].events@ == d.events@.drop_first() && after[handle].initial
                    == d.initial && after[handle].visible == d.visible
            }),
            final(self).native_user.screen_shake == old(self).native_user.screen_shake,
            final(self).screen_shake_offset == old(self).screen_shake_offset,
            final(self).same_outside_user(*old(self)),
            (NativeUserState { dialog_handles: old(self).native_user.dialog_handles, dialogs: old(self).native_user.dialogs, next_modeless_dialog: old(self).native_user.next_modeless_dialog, ..final(self).native_user }) == old(self).native_user,
            final(self).native_user.next_dialog_view() == old(self).native_user.next_dialog_view(),
    {
        self.native_user.poll_modeless_dialog(handle)
    }
}


/// A dialog just opened has nothing queued: polling it reports `Ok(None)`.
pub proof fn law_new_dialog_polls_empty(d: Map<i32, NativeModelessDialog>, handle: i32)
    requires
        d.contains_key(handle),
        d[handle].events@.len() == 0,
    ensures
        poll_result(d, handle) == Ok::<Option<[i32; 2]>, ()>(None),
{
}

/// A closed dialog is gone: polling it reports `Err`.
pub proof fn law_closed_dialog_polls_err(d: Map<i32, NativeModelessDialog>, handle: i32)
    ensures
        poll_result(d.remove(handle), handle) == Err::<Option<[i32; 2]>, ()>(()),
{
}

/// A stopped shake stays still: ticking it any time later reports a zero
/// offset, keeps it inactive and draws nothing from the generator.
pub proof fn law_cancelled_shake_stays_still(s: NativeScreenShakeState, elapsed_ms: u64, seed: u32)
    ensures
        s.cancelled().tick_spec(elapsed_ms, seed).0.offset == (0i64, 0i64),
        !s.cancelled().tick_spec(elapsed_ms, seed).0.active,
        s.cancelled().tick_spec(elapsed_ms, seed).1 == seed,
{
}

/// The CRT generator always reports a value in `0..=0x7fff`.
pub proof fn law_crt_output_range(seed: u32)
    ensures
        0 <= crt_output(seed) <= 0x7fff,
{
}

/// The charset a font option records: 128 for option 0, 0 for option 1,
/// none otherwise.
pub open spec fn font_charset(option: i32) -> Option<i32> {
    if option == 0 {
        Some(128i32)
    } else if option == 1 {
        Some(0i32)
    } else {
        None
    }
}

/// Interning font `name`: a known name keeps its id (and takes the new
/// option unless it is -1); a new name receives the next id, and the next
/// id moves on (saturating, at least 1). The new fonts, next id and the id.
pub open spec fn font_interned(
    fonts: Map<Seq<char>, NativeFontRecord>,
    next: i32,
    name: Seq<char>,
    option: i32,
) -> (Map<Seq<char>, NativeFontRecord>, i32, i32) {
    if fonts.contains_key(name) {
        let r = fonts[name];
        let updated = if option != -1 {
            fonts.insert(name, NativeFontRecord { id: r.id, option, metadata_charset: font_charset(option) })
        } else {
            fonts
        };
        (updated, next, r.id)
    } else {
        (
            fonts.insert(name, NativeFontRecord { id: next, option, metadata_charset: font_charset(option) }),
            at_least_one(if next == i32::MAX { next as int } else { next + 1 }) as i32,
            next,
        )
    }
}

/// Interning a name again gives the id it got the first time; option -1
/// keeps the recorded metadata.
pub proof fn law_font_interning_is_stable(
    fonts: Map<Seq<char>, NativeFontRecord>,
    next: i32,
    name: Seq<char>,
    first: i32,
    second: i32,
)
    ensures
        ({
            let (f1, n1, id1) = font_interned(fonts, next, name, first);
            let (f2, n2, id2) = font_interned(f1, n1, name, second);
            &&& id2 == id1
            &&& n2 == n1
            &&& second == -1 ==> f2 == f1
        }),
{
}

} // verus!
