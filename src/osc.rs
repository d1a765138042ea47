use vstd::prelude::*;
use vstd::arithmetic::div_mod::{
    lemma_add_mod_noop_right, lemma_div_is_ordered, lemma_div_multiples_vanish,
    lemma_fundamental_div_mod_converse, lemma_mod_add_multiples_vanish, lemma_small_mod,
};

verus! {

/// Frequencies are given in thousandths of a hertz.
pub const MILLIHERTZ_PER_HERTZ: u64 = 1000;

/// The peak level of a tone: a tenth of `FULL_SCALE`, well below clipping.
pub const OSC_LEVEL: i32 = 100_000;

/// The largest phase period: one second at the largest sample rate, in
/// millihertz steps.
pub const MAX_PERIOD: u64 = 4_294_967_295_000;

/// The shape of a tone.
#[derive(Debug, Clone, Copy, PartialEq, Eq, Structural)]
pub enum OscWave {
    Triangle,
    Sine,
}

/// The phase `pos - offset + period / 4`, folded into `[0, 4 * period)` in
/// quarter steps.
pub open spec fn quarter_phase(pos: int, offset: int, period: int) -> int {
    (4 * pos - 4 * offset + period) % (4 * period)
}

/// The triangle wave at phase `pos / period`, shifted by `offset / period`,
/// scaled to `[-OSC_LEVEL, OSC_LEVEL]`:
/// `OSC_LEVEL * (4 * |((pos - offset) / period + 1/4) mod 1 - 1/2| - 1)`,
/// rounded down.
pub open spec fn triangle_value(pos: int, offset: int, period: int) -> int {
    let q = quarter_phase(pos, offset, period);
    let t = if q >= 2 * period { q - 2 * period } else { 2 * period - q };
    t * OSC_LEVEL / period - OSC_LEVEL
}

/// The triangle wave stays within `[-OSC_LEVEL, OSC_LEVEL]`.
pub proof fn lemma_triangle_bounds(pos: int, offset: int, period: int)
    requires
        period > 0,
    ensures
        -OSC_LEVEL <= triangle_value(pos, offset, period) <= OSC_LEVEL,
{
    let q = quarter_phase(pos, offset, period);
    let t = if q >= 2 * period { q - 2 * period } else { 2 * period - q };
    let l = OSC_LEVEL as int;
    assert(0 <= t <= 2 * period);
    assert(t * l <= (2 * period) * l) by (nonlinear_arith)
        requires
            t <= 2 * period,
            l > 0,
    ;
    assert(t * l >= 0) by (nonlinear_arith)
        requires
            t >= 0,
            l > 0,
    ;
    assert((2 * period) * l == period * (2 * l)) by (nonlinear_arith);
    lemma_div_is_ordered(t * l, period * (2 * l), period);
    lemma_div_multiples_vanish(2 * l, period);
}

/// Evaluates the triangle wave of `triangle_value`.
pub fn triangle(pos: u64, offset: u64, period: u64) -> (r: i32)
    requires
        0 < period <= MAX_PERIOD,
        pos < period,
        offset < period,
    ensures
        r == triangle_value(pos as int, offset as int, period as int),
        -OSC_LEVEL <= r <= OSC_LEVEL,
{
    let a: u64 = 4 * pos + 4 * (period - offset) + period;
    let q: u64 = a % (4 * period);
    proof {
        let m = 4 * period as int;
        lemma_mod_add_multiples_vanish(4 * pos - 4 * offset + period, m);
        assert(q == quarter_phase(pos as int, offset as int, period as int));
    }
    let t: u64 = if q >= 2 * period { q - 2 * period } else { 2 * period - q };
    proof {
        let l = OSC_LEVEL as int;
        lemma_triangle_bounds(pos as int, offset as int, period as int);
        assert(t * l <= 2 * MAX_PERIOD * l) by (nonlinear_arith)
            requires
                t <= 2 * MAX_PERIOD,
                l > 0,
        ;
    }
    let s: u64 = t * (OSC_LEVEL as u64) / period;
    s as i32 - OSC_LEVEL
}

/// The phase, out of `period`, after `k` steps of `step` from `start`.
pub open spec fn phase_after(start: int, step: int, period: int, k: int) -> int {
    (start + k * step) % period
}

proof fn lemma_phase_step(start: int, step: int, period: int, k: int)
    requires
        period > 0,
    ensures
        (phase_after(start, step, period, k) + step) % period
            == phase_after(start, step, period, k + 1),
{
    lemma_add_mod_noop_right(step, start + k * step, period);
    assert(start + k * step + step == start + (k + 1) * step) by (nonlinear_arith);
}

/// The number of frames of `channels` samples that `len` samples make, the
/// last one possibly cut short.
pub open spec fn frame_count(len: nat, channels: nat) -> nat {
    ((len + channels - 1) / channels as int) as nat
}

proof fn lemma_frame_index(k: int, c: int, channels: int)
    requires
        0 <= k,
        0 <= c < channels,
    ensures
        (k * channels + c) / channels == k,
{
    lemma_fundamental_div_mod_converse(k * channels + c, channels, k, c);
    assert(k * channels == channels * k) by (nonlinear_arith);
}

proof fn lemma_frame_count_step(j: nat, n: nat, channels: nat, k: nat)
    requires
        channels > 0,
        j < n,
        j == k * channels,
        k == frame_count(j, channels),
    ensures
        k < frame_count(n, channels),
{
    let ch = channels as int;
    lemma_frame_index(k as int, ch - 1, ch);
    assert(j + ch - 1 == k * ch + (ch - 1));
    assert(n + ch - 1 >= (k + 1) * ch) by (nonlinear_arith)
        requires
            n >= j + 1,
            j == k * ch,
    ;
    lemma_div_is_ordered((k as int + 1) * ch, n + ch - 1, ch);
    lemma_div_multiples_vanish(k as int + 1, ch);
    assert((k + 1) * ch == ch * (k + 1)) by (nonlinear_arith);
}

proof fn lemma_frame_count_after(j: nat, n: nat, channels: nat, k: nat, c: nat)
    requires
        channels > 0,
        j <= n,
        k >= 1,
        1 <= c <= channels,
        j == (k - 1) * channels + c,
        c == channels || j == n,
    ensures
        k == frame_count(j, channels),
        j < n ==> j == k * channels,
{
    let ch = channels as int;
    assert((k - 1) * ch + ch == k * ch) by (nonlinear_arith);
    assert(j + ch - 1 == k * ch + (c - 1));
    lemma_frame_index(k as int, c - 1, ch);
}

/// A tone generator: a leaf node that synthesises a periodic wave from a
/// phase accumulator.
///
/// The phase is kept exactly as a whole number of steps out of `period`,
/// where `period` is the sample rate in millihertz; each sample advances it
/// by the frequency in millihertz.
#[derive(Debug)]
pub struct Osc {
    pub freq: u32,
    pub wave: OscWave,
    pub phase: u64,
    pub period: u64,
    pub sample_rate: u32,
}

impl Osc {
    /// The accumulator is within its period, and the period matches the
    /// sample rate.
    pub open spec fn wf(&self) -> bool {
        &&& self.sample_rate > 0
        &&& self.freq > 0
        &&& self.period == self.sample_rate * MILLIHERTZ_PER_HERTZ
        &&& self.phase < self.period
    }

    /// The phase used for the `k`-th sample from now.
    pub open spec fn phase_at(&self, k: int) -> int {
        phase_after(self.phase as int, self.freq as int, self.period as int, k)
    }

    /// The next `n` samples of this tone.
    pub open spec fn samples(&self, n: nat) -> Seq<i32> {
        Seq::new(n, |k: int| triangle_value(self.phase_at(k), 0, self.period as int) as i32)
    }

    /// This tone after `n` samples were taken from it.
    pub open spec fn advanced(&self, n: nat) -> Osc {
        Osc { phase: self.phase_at(n as int) as u64, ..*self }
    }

    /// The tone `new` makes.
    pub open spec fn new_spec(sample_rate: u32, freq: u32, wave: OscWave) -> Osc {
        Osc {
            freq,
            wave,
            phase: 0,
            period: (sample_rate * MILLIHERTZ_PER_HERTZ) as u64,
            sample_rate,
        }
    }

    /// A tone of `freq` millihertz at `sample_rate` samples per second,
    /// starting at phase zero.
    pub fn new(sample_rate: u32, freq: u32, wave: OscWave) -> (r: Osc)
        requires
            sample_rate > 0,
            freq > 0,
        ensures
            r == Osc::new_spec(sample_rate, freq, wave),
            r.wf(),
    {
        Osc {
            freq,
            wave,
            phase: 0,
            period: sample_rate as u64 * MILLIHERTZ_PER_HERTZ,
            sample_rate,
        }
    }

    /// Retunes the tone to `freq` millihertz; the phase carries on from
    /// where it is.
    pub fn set_freq(&mut self, freq: u32)
        requires
            old(self).wf(),
            freq > 0,
        ensures
            *final(self) == (Osc { freq, ..*old(self) }),
            final(self).wf(),
    {
        self.freq = freq;
    }

    /// Fills an interleaved buffer of `channels` channels: each frame of
    /// `channels` samples (the last one possibly cut short) gets the next
    /// sample of the tone on every channel.
    pub fn process_frames(&mut self, buf: &mut [i32], channels: usize)
        requires
            old(self).wf(),
            channels > 0,
        ensures
            *final(self) == old(self).advanced(frame_count(old(buf)@.len(), channels as nat)),
            final(buf)@ == Seq::new(
                old(buf)@.len(),
                |j: int| old(self).samples(frame_count(old(buf)@.len(), channels as nat))[j / channels as int],
            ),
    {
        let n = buf.len();
        let ghost start = *self;
        let ghost frames = frame_count(n as nat, channels as nat);
        let ghost want = Seq::new(n as nat, |j: int| start.samples(frames)[j / channels as int]);
        proof {
            lemma_small_mod(start.phase as nat, start.period as nat);
            assert(start.advanced(0) == start);
        }
        let mut j: usize = 0;
        let mut k: usize = 0;
        proof {
            lemma_frame_index(0, channels - 1, channels as int);
        }
        while j < n
            invariant
                j <= n,
                n == buf@.len(),
                channels > 0,
                start.wf(),
                self.wf(),
                k == frame_count(j as nat, channels as nat),
                j < n ==> j == k * channels,
                *self == start.advanced(k as nat),
                frames == frame_count(n as nat, channels as nat),
                want == Seq::new(n as nat, |i: int| start.samples(frames)[i / channels as int]),
                forall|i: int| 0 <= i < j ==> buf@[i] == #[trigger] want[i],
            decreases n - j,
        {
            proof {
                lemma_frame_count_step(j as nat, n as nat, channels as nat, k as nat);
            }
            let value = triangle(self.phase, 0, self.period);
            proof {
                lemma_phase_step(start.phase as int, start.freq as int, start.period as int, k as int);
            }
            self.phase = (self.phase + self.freq as u64) % self.period;
            let mut c: usize = 0;
            while c < channels && j < n
                invariant
                    j <= n,
                    c == 0 ==> j < n,
                    n == buf@.len(),
                    c <= channels,
                    j == k * channels + c,
                    k < frames,
                    value == start.samples(frames)[k as int],
                    want == Seq::new(n as nat, |i: int| start.samples(frames)[i / channels as int]),
                    forall|i: int| 0 <= i < j ==> buf@[i] == #[trigger] want[i],
                decreases channels - c,
            {
                proof {
                    lemma_frame_index(k as int, c as int, channels as int);
                }
                buf[j] = value;
                j = j + 1;
                c = c + 1;
            }
            proof {
                assert(k * channels >= k) by (nonlinear_arith)
                    requires
                        channels > 0,
                ;
                assert(c >= 1);
            }
            k = k + 1;
            proof {
                lemma_frame_count_after(j as nat, n as nat, channels as nat, k as nat, c as nat);
            }
        }
        assert(buf@ =~= want);
    }

    /// Fills `buf` with the next samples of the tone, advancing the phase
    /// once per sample.  Only the triangle shape is synthesised: a tone of
    /// any `wave` renders it.
    pub fn process(&mut self, buf: &mut [i32])
        requires
            old(self).wf(),
        ensures
            *final(self) == old(self).advanced(old(buf)@.len()),
            final(buf)@ == old(self).samples(old(buf)@.len()),
    {
        let n = buf.len();
        let ghost start = *self;
        let mut i: usize = 0;
        proof {
            lemma_small_mod(start.phase as nat, start.period as nat);
            assert(start.advanced(0) == start);
        }
        while i < n
            invariant
                i <= n,
                n == buf@.len(),
                start.wf(),
                self.wf(),
                *self == start.advanced(i as nat),
                forall|k: int| 0 <= k < i ==> buf@[k] == #[trigger] start.samples(n as nat)[k],
            decreases n - i,
        {
            buf[i] = triangle(self.phase, 0, self.period);
            proof {
                lemma_phase_step(start.phase as int, start.freq as int, start.period as int, i as int);
            }
            self.phase = (self.phase + self.freq as u64) % self.period;
            i = i + 1;
        }
        assert(final(buf)@ =~= start.samples(n as nat));
    }
}

} // verus!
