//! The sound generators of the PSG: three square-wave tones, a noise
//! generator and an envelope, clocked at 1 MHz (the 4 MHz Z80 clock divided
//! by four). They state at each moment which channels sound and at which
//! of the sixteen levels; turning that into audio samples is the front
//! end's part.

use vstd::prelude::*;

verus! {

/// Clock of the PSG on a CPC: the 4 MHz Z80 clock divided by 4.
pub const PSG_CLOCK: u32 = 1_000_000;

/// Ratio of the CPU clock to the PSG clock.
pub const CPU_TO_PSG: u32 = 4;

/// Internal prescaler of the PSG: the period counters run at PSG_CLOCK / 8,
/// which gives the datasheet formula for a tone, f = clock / (16 * period),
/// the counter flipping the output (half a period) each time it expires.
pub const PRESCALER: u32 = 8;

/// Rate of the samples taken from the mixer.
pub const SAMPLE_RATE: u32 = 44_100;

/// Full scale of `VOLUME_TABLE`.
pub const VOLUME_FULL: u16 = 10_000;

/// Amplitude of each of the PSG's 16 volume levels, in ten-thousandths of
/// full scale. The scale is logarithmic (about -3 dB a step), not linear:
/// a linear ramp makes envelopes sound plainly wrong.
pub const VOLUME_TABLE: [u16; 16] = [
    0, 137, 205, 291, 423, 618, 847, 1369, 1691, 2647, 3527, 4499, 5704, 6873, 8482, 10000,
];

/// The volume scale is silent at level 0, full at level 15, rises with
/// every level, and is far from linear: level 7 is below a quarter of full
/// scale.
pub proof fn lemma_volume_table_shape()
    ensures
        VOLUME_TABLE[0] == 0,
        VOLUME_TABLE[15] == VOLUME_FULL,
        forall|i: int| 0 <= i < 15 ==> #[trigger] VOLUME_TABLE[i] < VOLUME_TABLE[i + 1],
        VOLUME_TABLE[7] * 4 < VOLUME_FULL,
{
    assert forall|i: int| 0 <= i < 15 implies #[trigger] VOLUME_TABLE[i] < VOLUME_TABLE[i + 1] by {
        assert(VOLUME_TABLE[0] < VOLUME_TABLE[1]);
        assert(VOLUME_TABLE[1] < VOLUME_TABLE[2]);
        assert(VOLUME_TABLE[2] < VOLUME_TABLE[3]);
        assert(VOLUME_TABLE[3] < VOLUME_TABLE[4]);
        assert(VOLUME_TABLE[4] < VOLUME_TABLE[5]);
        assert(VOLUME_TABLE[5] < VOLUME_TABLE[6]);
        assert(VOLUME_TABLE[6] < VOLUME_TABLE[7]);
        assert(VOLUME_TABLE[7] < VOLUME_TABLE[8]);
        assert(VOLUME_TABLE[8] < VOLUME_TABLE[9]);
        assert(VOLUME_TABLE[9] < VOLUME_TABLE[10]);
        assert(VOLUME_TABLE[10] < VOLUME_TABLE[11]);
        assert(VOLUME_TABLE[11] < VOLUME_TABLE[12]);
        assert(VOLUME_TABLE[12] < VOLUME_TABLE[13]);
        assert(VOLUME_TABLE[13] < VOLUME_TABLE[14]);
        assert(VOLUME_TABLE[14] < VOLUME_TABLE[15]);
    }
}

/// A period read from its registers: a null period behaves as 1.
pub open spec fn period_at_least_one(p: int) -> int {
    if p == 0 { 1 } else { p }
}

/// The registers decoded once per run rather than at every PSG cycle.
#[derive(Clone, Copy)]
pub struct Params {
    /// 12-bit tone periods (fine register, then the low 4 bits of the
    /// coarse one), at least 1.
    pub tone_period: [u16; 3],
    /// 5-bit noise period, at least 1.
    pub noise_period: u16,
    /// R7: a bit at 1 cuts the tone (bits 0-2) or the noise (bits 3-5).
    pub mixer: u8,
    /// R8-R10: volume (bits 0-3), bit 4 for the envelope.
    pub amplitude: [u8; 3],
    /// 16-bit envelope period, at least 1.
    pub env_period: u32,
}

/// `p` holds the generator parameters that the registers `regs` set.
pub open spec fn decoded(p: Params, regs: [u8; 16]) -> bool {
    &&& forall|c: int| 0 <= c < 3 ==> p.tone_period[c] as int == period_at_least_one(
        regs[2 * c] as int + 256 * (regs[2 * c + 1] % 16) as int)
    &&& p.noise_period as int == period_at_least_one((regs[6] % 32) as int)
    &&& p.mixer == regs[7]
    &&& forall|c: int| 0 <= c < 3 ==> p.amplitude[c] == regs[8 + c] % 32
    &&& p.env_period as int == period_at_least_one(regs[11] as int + 256 * regs[12] as int)
}

impl Params {
    /// The generator parameters set by the registers.
    pub fn from_registers(regs: &[u8; 16]) -> (p: Params)
        ensures
            decoded(p, *regs),
            forall|c: int| 0 <= c < 3 ==> p.tone_period[c] as int == period_at_least_one(
                regs[2 * c] as int + 256 * (regs[2 * c + 1] % 16) as int),
            p.noise_period as int == period_at_least_one((regs[6] % 32) as int),
            p.mixer == regs[7],
            forall|c: int| 0 <= c < 3 ==> p.amplitude[c] == regs[8 + c] % 32,
            p.env_period as int == period_at_least_one(regs[11] as int + 256 * regs[12] as int),
    {
        let mut tone_period = [1u16; 3];
        let mut c: usize = 0;
        while c < 3
            invariant
                c <= 3,
                forall|k: int| 0 <= k < c ==> tone_period[k] as int == period_at_least_one(
                    regs[2 * k] as int + 256 * (regs[2 * k + 1] % 16) as int),
            decreases 3 - c,
        {
            let p = regs[2 * c] as u16 + 256 * (regs[2 * c + 1] % 16) as u16;
            tone_period[c] = if p == 0 { 1 } else { p };
            c += 1;
        }
        let noise = (regs[6] % 32) as u16;
        let env = regs[11] as u32 + 256 * regs[12] as u32;
        Params {
            tone_period,
            noise_period: if noise == 0 { 1 } else { noise },
            mixer: regs[7],
            amplitude: [regs[8] % 32, regs[9] % 32, regs[10] % 32],
            env_period: if env == 0 { 1 } else { env },
        }
    }
}

/// One shift of the noise register: a 17-bit linear feedback shift
/// register with taps on bits 0 and 3 (2^17 - 1 states).
pub open spec fn lfsr_next(lfsr: u32) -> u32 {
    (lfsr >> 1) | (((lfsr ^ (lfsr >> 3)) & 1) << 16)
}

/// Tone `c` after one prescaler cycle, from `o` to `n`: the counter
/// expires at the period and flips the output.
pub open spec fn tone_stepped(o: Generators, n: Generators, p: Params, c: int) -> bool {
    if o.tone_counter[c] + 1 >= p.tone_period[c] {
        n.tone_counter[c] == 0 && n.tone_state[c] == !o.tone_state[c]
    } else {
        n.tone_counter[c] == o.tone_counter[c] + 1 && n.tone_state[c] == o.tone_state[c]
    }
}

/// The envelope after one step of `g` (see `Generators::advance_envelope`).
pub open spec fn envelope_advanced(g: Generators) -> Generators {
    if g.env_holding {
        g
    } else if g.env_step > 0 {
        Generators {
            env_step: (g.env_step - 1) as i32,
            env_volume: Generators::envelope_level((g.env_step - 1) as i32, g.env_attack),
            ..g
        }
    } else {
        let attack = if g.env_alternate { g.env_attack ^ 0x0F } else { g.env_attack };
        let step: i32 = if g.env_hold { 0 } else { 15 };
        Generators {
            env_attack: attack,
            env_holding: g.env_hold,
            env_step: step,
            env_volume: Generators::envelope_level(step, attack),
            ..g
        }
    }
}

/// `n` is `o` after one cycle of the prescaler under `p`: each tone counter
/// moves on (`tone_stepped`); the noise counter too, the shift register
/// moving on every other expiry; the envelope counter too, the envelope
/// stepping on every other expiry; nothing else changes.
pub open spec fn stepped(o: Generators, n: Generators, p: Params) -> bool {
    let nc = o.noise_counter + 1;
    let noise_expires = nc >= p.noise_period;
    let ec = o.env_counter + 1;
    let env_expires = ec >= p.env_period;
    let env = if env_expires && o.env_prescaler { envelope_advanced(o) } else { o };
    &&& forall|c: int| 0 <= c < 3 ==> #[trigger] tone_stepped(o, n, p, c)
    &&& n.noise_counter == (if noise_expires { 0 } else { nc }) as u16
    &&& n.noise_prescaler == (if noise_expires { !o.noise_prescaler } else { o.noise_prescaler })
    &&& n.lfsr == if noise_expires && o.noise_prescaler { lfsr_next(o.lfsr) } else { o.lfsr }
    &&& n.env_counter == (if env_expires { 0 } else { ec }) as u32
    &&& n.env_prescaler == (if env_expires { !o.env_prescaler } else { o.env_prescaler })
    &&& n == (Generators {
        tone_counter: n.tone_counter,
        tone_state: n.tone_state,
        noise_counter: n.noise_counter,
        noise_prescaler: n.noise_prescaler,
        lfsr: n.lfsr,
        env_counter: n.env_counter,
        env_prescaler: n.env_prescaler,
        env_step: env.env_step,
        env_attack: env.env_attack,
        env_holding: env.env_holding,
        env_volume: env.env_volume,
        ..o
    })
}

/// `n` is `o` after one PSG cycle under `p`: the prescaler moves on and,
/// on its expiry (`step`), the generators step; the sampling phase moves on
/// by SAMPLE_RATE, a sample falling due (`due`) when it passes PSG_CLOCK.
pub open spec fn clocked(o: Generators, n: Generators, p: Params, step: bool, due: bool) -> bool {
    let phase = o.sample_phase + SAMPLE_RATE;
    &&& step == (o.prescaler + 1 >= PRESCALER)
    &&& due == (phase >= PSG_CLOCK)
    &&& n.sample_phase == (if due { phase - PSG_CLOCK } else { phase }) as u32
    &&& if step {
        stepped(Generators { prescaler: 0, ..o }, Generators { sample_phase: o.sample_phase, ..n }, p)
    } else {
        n == (Generators { prescaler: (o.prescaler + 1) as u32, sample_phase: n.sample_phase, ..o })
    }
}

/// `n` is `o` after one PSG cycle under `p` (see `clocked`), `due`
/// whether a sample fell due.
pub open spec fn clock_step(o: Generators, n: Generators, p: Params, due: bool) -> bool {
    clocked(o, n, p, o.prescaler + 1 >= PRESCALER, due)
}

/// `gs` are the generators before and after each of `ds.len()` PSG cycles
/// under `p`, `ds` whether each made a sample due.
pub open spec fn clock_chain(gs: Seq<Generators>, ds: Seq<bool>, p: Params) -> bool {
    &&& gs.len() == ds.len() + 1
    &&& forall|j: int| 0 <= j < ds.len() ==> #[trigger] clock_step(gs[j], gs[j + 1], p, ds[j])
}

/// How many of `ds` are true.
pub open spec fn count_due(ds: Seq<bool>) -> nat
    decreases ds.len(),
{
    if ds.len() == 0 { 0 } else { count_due(ds.drop_last()) + if ds.last() { 1nat } else { 0nat } }
}

/// State of the generators.
pub struct Generators {
    pub tone_counter: [u16; 3],
    pub tone_state: [bool; 3],
    pub noise_counter: u16,
    /// Noise and envelope move on every other expiry of their counter.
    pub noise_prescaler: bool,
    pub lfsr: u32,
    pub env_counter: u32,
    pub env_prescaler: bool,
    /// Position in the ramp, counted down from 15 to 0.
    pub env_step: i32,
    /// Mask turning the ramp over: 0x0F rising, 0x00 falling.
    pub env_attack: u8,
    pub env_alternate: bool,
    pub env_hold: bool,
    pub env_holding: bool,
    pub env_volume: u8,
    /// CPU cycles not yet turned into PSG cycles.
    pub cpu_remainder: u32,
    pub prescaler: u32,
    /// Sampling phase accumulator, in units of SAMPLE_RATE.
    pub sample_phase: u32,
}

impl Generators {
    /// Counters below their largest period, the noise register on 17
    /// bits, the envelope on its ramp.
    pub open spec fn wf(&self) -> bool {
        &&& forall|c: int| 0 <= c < 3 ==> self.tone_counter[c] < 0x1000
        &&& self.noise_counter < 0x20
        &&& self.lfsr < 0x20000
        &&& self.env_counter < 0x10000
        &&& 0 <= self.env_step <= 15
        &&& (self.env_attack == 0 || self.env_attack == 0x0F)
        &&& self.env_volume == (self.env_step as u8 ^ self.env_attack)
        &&& self.cpu_remainder < CPU_TO_PSG
        &&& self.prescaler < PRESCALER
        &&& self.sample_phase < PSG_CLOCK
    }

    /// Generators at rest: outputs low, noise register at 1, envelope
    /// held at its top.
    pub fn new() -> (g: Generators)
        ensures
            g.wf(),
            forall|c: int| 0 <= c < 3 ==> !g.tone_state[c],
            g.lfsr == 1,
            g.env_volume == 15,
            g.env_hold,
            !g.env_holding,
    {
        assert(15u8 ^ 0u8 == 15u8) by (bit_vector);
        Generators {
            tone_counter: [0; 3],
            tone_state: [false; 3],
            noise_counter: 0,
            noise_prescaler: false,
            lfsr: 1,
            env_counter: 0,
            env_prescaler: false,
            env_step: 15,
            env_attack: 0,
            env_alternate: false,
            env_hold: true,
            env_holding: false,
            env_volume: 15,
            cpu_remainder: 0,
            prescaler: 0,
            sample_phase: 0,
        }
    }

    /// PSG cycles in `cpu_ticks` Z80 cycles, the remainder of the division
    /// by 4 kept for the next call: losing 1 to 3 cycles at each
    /// instruction would slowly put the whole machine out of tune.
    pub fn psg_cycles(&mut self, cpu_ticks: u32) -> (n: u32)
        requires
            old(self).wf(),
        ensures
            final(self).wf(),
            n as int == (old(self).cpu_remainder as int + cpu_ticks as int) / 4,
            final(self).cpu_remainder as int == (old(self).cpu_remainder as int + cpu_ticks as int) % 4,
            *final(self) == (Generators { cpu_remainder: final(self).cpu_remainder, ..*old(self) }),
    {
        let total: u64 = self.cpu_remainder as u64 + cpu_ticks as u64;
        self.cpu_remainder = (total % 4) as u32;
        (total / 4) as u32
    }

    /// One shift of the noise register.
    pub fn step_noise(&mut self)
        requires
            old(self).wf(),
        ensures
            final(self).wf(),
            *final(self) == (Generators { lfsr: lfsr_next(old(self).lfsr), ..*old(self) }),
    {
        let l = self.lfsr;
        assert(l < 0x20000 ==> lfsr_next(l) < 0x20000) by (bit_vector);
        self.lfsr = (l >> 1) | (((l ^ (l >> 3)) & 1) << 16);
    }

    /// Volume of the envelope at ramp position `step` under `attack`.
    pub open spec fn envelope_level(step: i32, attack: u8) -> u8 {
        step as u8 ^ attack
    }

    /// The generators after `shape` was written to R13: the envelope
    /// decoded from it, started over at the top of its ramp.
    pub open spec fn shape_written(self, shape: u8) -> Generators {
        let attack: u8 = if shape & 0x04 != 0 { 0x0F } else { 0 };
        Generators {
            env_attack: attack,
            env_hold: shape & 0x08 == 0 || shape & 0x01 != 0,
            env_alternate: if shape & 0x08 == 0 { shape & 0x04 != 0 } else { shape & 0x02 != 0 },
            env_step: 15,
            env_holding: false,
            env_counter: 0,
            env_prescaler: false,
            env_volume: 15u8 ^ attack,
            ..self
        }
    }

    /// A write to R13: the shape is decoded and the envelope starts over.
    /// Bits: 3 = CONT, 2 = ATT (rising), 1 = ALT, 0 = HOLD. A shape without
    /// CONT plays one ramp then goes silent, which is HOLD with ALT equal
    /// to ATT.
    pub fn write_envelope_shape(&mut self, shape: u8)
        requires
            old(self).wf(),
        ensures
            final(self).wf(),
            final(self).env_attack == if shape & 0x04 != 0 { 0x0Fu8 } else { 0u8 },
            final(self).env_hold == (shape & 0x08 == 0 || shape & 0x01 != 0),
            final(self).env_alternate == if shape & 0x08 == 0 { shape & 0x04 != 0 } else { shape & 0x02 != 0 },
            final(self).env_step == 15,
            !final(self).env_holding,
            final(self).env_counter == 0,
            !final(self).env_prescaler,
            final(self).env_volume == 15u8 ^ final(self).env_attack,
            *final(self) == old(self).shape_written(shape),
            *final(self) == (Generators {
                env_attack: final(self).env_attack,
                env_hold: final(self).env_hold,
                env_alternate: final(self).env_alternate,
                env_step: 15,
                env_holding: false,
                env_counter: 0,
                env_prescaler: false,
                env_volume: final(self).env_volume,
                ..*old(self)
            }),
    {
        self.env_attack = if shape & 0x04 != 0 { 0x0F } else { 0x00 };
        if shape & 0x08 == 0 {
            self.env_hold = true;
            self.env_alternate = self.env_attack != 0;
        } else {
            self.env_hold = shape & 0x01 != 0;
            self.env_alternate = shape & 0x02 != 0;
        }
        self.env_step = 15;
        self.env_holding = false;
        self.env_counter = 0;
        self.env_prescaler = false;
        self.env_volume = 15u8 ^ self.env_attack;
    }

    /// One envelope step. The ramp always counts down from 15 to 0; the
    /// attack mask turns it into a rise. At its end the ramp holds (turned
    /// over with ALT) or starts again (turned over with ALT).
    pub fn advance_envelope(&mut self)
        requires
            old(self).wf(),
        ensures
            final(self).wf(),
            old(self).env_holding ==> *final(self) == *old(self),
            !old(self).env_holding && old(self).env_step > 0 ==> *final(self) == (Generators {
                env_step: (old(self).env_step - 1) as i32,
                env_volume: Self::envelope_level((old(self).env_step - 1) as i32, old(self).env_attack),
                ..*old(self)
            }),
            !old(self).env_holding && old(self).env_step == 0 ==> {
                let attack = if old(self).env_alternate { old(self).env_attack ^ 0x0F } else { old(self).env_attack };
                let step: i32 = if old(self).env_hold { 0 } else { 15 };
                *final(self) == (Generators {
                    env_attack: attack,
                    env_holding: old(self).env_hold,
                    env_step: step,
                    env_volume: Self::envelope_level(step, attack),
                    ..*old(self)
                })
            },
    {
        if self.env_holding {
            return;
        }
        self.env_step -= 1;
        if self.env_step < 0 {
            if self.env_alternate {
                let a = self.env_attack;
                assert((a == 0 || a == 0x0F) ==> (a ^ 0x0F == 0 || a ^ 0x0F == 0x0F)) by (bit_vector);
                self.env_attack ^= 0x0F;
            }
            if self.env_hold {
                self.env_holding = true;
                self.env_step = 0;
            } else {
                self.env_step = 15;
            }
        }
        self.env_volume = self.env_step as u8 ^ self.env_attack;
    }

    /// One cycle of the prescaler: each tone counter flips its output when
    /// it reaches its period; the noise and the envelope counters do the
    /// same, and move on every other expiry.
    pub fn step_generators(&mut self, p: &Params)
        requires
            old(self).wf(),
            forall|c: int| 0 <= c < 3 ==> 1 <= #[trigger] p.tone_period[c] < 0x1000,
            1 <= p.noise_period < 0x20,
            1 <= p.env_period < 0x10000,
        ensures
            final(self).wf(),
            forall|c: int| 0 <= c < 3 ==> #[trigger] tone_stepped(*old(self), *final(self), *p, c),
            ({
                let n = old(self).noise_counter + 1;
                if n >= p.noise_period {
                    &&& final(self).noise_counter == 0
                    &&& final(self).noise_prescaler == !old(self).noise_prescaler
                    &&& final(self).lfsr == if old(self).noise_prescaler { lfsr_next(old(self).lfsr) } else { old(self).lfsr }
                } else {
                    &&& final(self).noise_counter == n
                    &&& final(self).noise_prescaler == old(self).noise_prescaler
                    &&& final(self).lfsr == old(self).lfsr
                }
            }),
            ({
                let e = old(self).env_counter + 1;
                if e >= p.env_period {
                    &&& final(self).env_counter == 0
                    &&& final(self).env_prescaler == !old(self).env_prescaler
                } else {
                    &&& final(self).env_counter == e
                    &&& final(self).env_prescaler == old(self).env_prescaler
                    &&& final(self).env_step == old(self).env_step
                    &&& final(self).env_volume == old(self).env_volume
                    &&& final(self).env_holding == old(self).env_holding
                }
            }),
            final(self).cpu_remainder == old(self).cpu_remainder,
            final(self).prescaler == old(self).prescaler,
            final(self).sample_phase == old(self).sample_phase,
            stepped(*old(self), *final(self), *p),
    {
        let mut c: usize = 0;
        while c < 3
            invariant
                c <= 3,
                self.wf(),
                forall|k: int| 0 <= k < 3 ==> 1 <= #[trigger] p.tone_period[k] < 0x1000,
                forall|k: int| 0 <= k < c ==> #[trigger] tone_stepped(*old(self), *self, *p, k),
                forall|k: int| c <= k < 3 ==> self.tone_counter[k] == old(self).tone_counter[k] && self.tone_state[k] == old(self).tone_state[k],
                *self == (Generators { tone_counter: self.tone_counter, tone_state: self.tone_state, ..*old(self) }),
            decreases 3 - c,
        {
            let ghost prev = *self;
            self.tone_counter[c] += 1;
            if self.tone_counter[c] >= p.tone_period[c] {
                self.tone_counter[c] = 0;
                self.tone_state[c] = !self.tone_state[c];
            }
            proof {
                assert forall|k: int| 0 <= k < c + 1 implies #[trigger] tone_stepped(*old(self), *self, *p, k) by {
                    if k < c {
                        assert(tone_stepped(*old(self), prev, *p, k));
                    }
                }
            }
            c += 1;
        }
        let ghost after_tones = *self;

        self.noise_counter += 1;
        if self.noise_counter >= p.noise_period {
            self.noise_counter = 0;
            self.noise_prescaler = !self.noise_prescaler;
            if !self.noise_prescaler {
                self.step_noise();
            }
        }

        self.env_counter += 1;
        if self.env_counter >= p.env_period {
            self.env_counter = 0;
            self.env_prescaler = !self.env_prescaler;
            if !self.env_prescaler {
                self.advance_envelope();
            }
        }
        proof {
            assert forall|k: int| 0 <= k < 3 implies #[trigger] tone_stepped(*old(self), *self, *p, k) by {
                assert(tone_stepped(*old(self), after_tones, *p, k));
            }
        }
    }

    /// One PSG cycle: the prescaler moves on, and on its expiry the
    /// generators step (`stepped`); a sample is due every PSG_CLOCK /
    /// SAMPLE_RATE cycles on average (`sample_due`).
    pub fn clock(&mut self, p: &Params) -> (r: (bool, bool))
        requires
            old(self).wf(),
            forall|c: int| 0 <= c < 3 ==> 1 <= #[trigger] p.tone_period[c] < 0x1000,
            1 <= p.noise_period < 0x20,
            1 <= p.env_period < 0x10000,
        ensures
            final(self).wf(),
            r.0 == (old(self).prescaler + 1 >= PRESCALER),
            final(self).prescaler == if r.0 { 0 } else { old(self).prescaler + 1 },
            !r.0 ==> final(self).tone_state == old(self).tone_state && final(self).lfsr == old(self).lfsr
                && final(self).env_volume == old(self).env_volume,
            final(self).cpu_remainder == old(self).cpu_remainder,
            r.1 == (old(self).sample_phase + SAMPLE_RATE >= PSG_CLOCK),
            final(self).sample_phase == if r.1 {
                old(self).sample_phase + SAMPLE_RATE - PSG_CLOCK
            } else {
                old(self).sample_phase + SAMPLE_RATE
            },
            clocked(*old(self), *final(self), *p, r.0, r.1),
    {
        let mut stepped = false;
        self.prescaler += 1;
        let ghost after_step = *self;
        if self.prescaler >= PRESCALER {
            self.prescaler = 0;
            self.step_generators(p);
            proof {
                after_step = *self;
            }
            stepped = true;
        }
        self.sample_phase += SAMPLE_RATE;
        let mut due = false;
        if self.sample_phase >= PSG_CLOCK {
            self.sample_phase -= PSG_CLOCK;
            due = true;
        }
        proof {
            if stepped {
                assert(after_step == (Generators { sample_phase: old(self).sample_phase, ..*self }));
            }
        }
        (stepped, due)
    }

    /// Runs `cycles` PSG cycles with the registers `regs` (the generators
    /// only: no sample values); returns how many samples fell due. The
    /// prescaler and the sampling phase advance by exactly `cycles`.
    pub fn run(&mut self, regs: &[u8; 16], cycles: u32) -> (due: u32)
        requires
            old(self).wf(),
        ensures
            final(self).wf(),
            final(self).prescaler as int == (old(self).prescaler as int + cycles as int) % PRESCALER as int,
            final(self).sample_phase as int == (old(self).sample_phase as int + cycles as int * SAMPLE_RATE as int) % PSG_CLOCK as int,
            due as int == (old(self).sample_phase as int + cycles as int * SAMPLE_RATE as int) / PSG_CLOCK as int,
            final(self).cpu_remainder == old(self).cpu_remainder,
            exists|p: Params, gs: Seq<Generators>, ds: Seq<bool>| #[trigger] clock_chain(gs, ds, p)
                && decoded(p, *regs) && ds.len() == cycles && gs[0] == *old(self)
                && gs[cycles as int] == *final(self) && due == count_due(ds),
    {
        let p = Params::from_registers(regs);
        proof {
            assert forall|c: int| 0 <= c < 3 implies 1 <= #[trigger] p.tone_period[c] < 0x1000 by {
                assert(regs[2 * c] as int + 256 * (regs[2 * c + 1] % 16) as int <= 0xFFF);
            }
        }
        let mut due: u32 = 0;
        let mut i: u32 = 0;
        let ghost mut gs: Seq<Generators> = seq![*self];
        let ghost mut ds: Seq<bool> = Seq::empty();
        while i < cycles
            invariant
                i <= cycles,
                self.wf(),
                decoded(p, *regs),
                clock_chain(gs, ds, p),
                ds.len() == i,
                gs[0] == *old(self),
                gs[i as int] == *self,
                due == count_due(ds),
                forall|c: int| 0 <= c < 3 ==> 1 <= #[trigger] p.tone_period[c] < 0x1000,
                1 <= p.noise_period < 0x20,
                1 <= p.env_period < 0x10000,
                self.prescaler as int == (old(self).prescaler as int + i as int) % PRESCALER as int,
                self.sample_phase as int == (old(self).sample_phase as int + i as int * SAMPLE_RATE as int) % PSG_CLOCK as int,
                due as int == (old(self).sample_phase as int + i as int * SAMPLE_RATE as int) / PSG_CLOCK as int,
                due <= i,
                self.cpu_remainder == old(self).cpu_remainder,
                old(self).prescaler < PRESCALER,
                old(self).sample_phase < PSG_CLOCK,
            decreases cycles - i,
        {
            let ghost before = *self;
            let (_, d) = self.clock(&p);
            proof {
                let ds2 = ds.push(d);
                assert(ds2.drop_last() =~= ds);
                gs = gs.push(*self);
                ds = ds2;
                assert(clock_step(before, *self, p, d));
                assert forall|j: int| 0 <= j < ds.len() implies #[trigger] clock_step(gs[j], gs[j + 1], p, ds[j]) by {
                    if j < i {
                        assert(gs[j] == gs.drop_last()[j] && gs[j + 1] == gs.drop_last()[j + 1]);
                    }
                }
                let a = old(self).sample_phase as int + i as int * SAMPLE_RATE as int;
                let b = a + SAMPLE_RATE as int;
                assert(b == a + 44100);
                assert(a % 1000000 + 44100 == b - (a / 1000000) * 1000000) by (nonlinear_arith)
                    requires b == a + 44100, a >= 0;
                if d {
                    assert(b / 1000000 == a / 1000000 + 1 && b % 1000000 == a % 1000000 + 44100 - 1000000) by (nonlinear_arith)
                        requires b == a + 44100, a >= 0, a % 1000000 + 44100 >= 1000000, a % 1000000 < 1000000;
                } else {
                    assert(b / 1000000 == a / 1000000 && b % 1000000 == a % 1000000 + 44100) by (nonlinear_arith)
                        requires b == a + 44100, a >= 0, a % 1000000 + 44100 < 1000000;
                }
                let q = old(self).prescaler as int + i as int;
                assert((q + 1) % 8 == if q % 8 + 1 >= 8 { 0 } else { q % 8 + 1 }) by (nonlinear_arith)
                    requires q >= 0;
            }
            if d {
                due += 1;
            }
            i += 1;
        }
        assert(clock_chain(gs, ds, p));
        due
    }

    /// The level (0-15) at which channel `c` sounds, or none when silent.
    /// In R7 a bit at 1 cuts a source: a cut tone behaves as a steady high
    /// level, which lets the noise through alone (and the other way round).
    pub open spec fn level_of(&self, p: Params, c: int) -> Option<u8> {
        let noise_bit = self.lfsr & 1 != 0;
        let tone_on = self.tone_state[c] || (p.mixer >> c as u8) & 1 != 0;
        let noise_on = noise_bit || (p.mixer >> (c + 3) as u8) & 1 != 0;
        if tone_on && noise_on {
            Some(if p.amplitude[c] & 0x10 != 0 { self.env_volume } else { p.amplitude[c] & 0x0F })
        } else {
            None
        }
    }

    /// The level of each channel (see `level_of`).
    pub fn channel_levels(&self, p: &Params) -> (levels: [Option<u8>; 3])
        ensures
            forall|c: int| 0 <= c < 3 ==> levels[c] == self.level_of(*p, c),
    {
        let noise_bit = (self.lfsr & 1) != 0;
        let mut levels: [Option<u8>; 3] = [None; 3];
        let mut c: usize = 0;
        while c < 3
            invariant
                c <= 3,
                noise_bit == (self.lfsr & 1 != 0),
                forall|k: int| 0 <= k < c ==> levels[k] == self.level_of(*p, k),
                forall|k: int| c <= k < 3 ==> levels[k] is None,
            decreases 3 - c,
        {
            let ghost prev = levels;
            let tone_on = self.tone_state[c] || (p.mixer >> c as u8) & 1 != 0;
            let noise_on = noise_bit || (p.mixer >> (c + 3) as u8) & 1 != 0;
            if tone_on && noise_on {
                let amplitude = p.amplitude[c];
                levels[c] = Some(if amplitude & 0x10 != 0 { self.env_volume } else { amplitude & 0x0F });
            }
            proof {
                assert forall|k: int| 0 <= k < c + 1 implies levels[k] == self.level_of(*p, k) by {
                    if k < c {
                        assert(prev[k] == self.level_of(*p, k));
                    }
                }
            }
            c += 1;
        }
        levels
    }

    /// Current volume of the envelope (0-15).
    pub fn envelope_volume(&self) -> (v: u8)
        ensures
            v == self.env_volume,
    {
        self.env_volume
    }

    /// Current square output of each channel.
    pub fn tone_states(&self) -> (s: [bool; 3])
        ensures
            s == self.tone_state,
    {
        self.tone_state
    }

    /// The noise shift register.
    pub fn noise_lfsr(&self) -> (l: u32)
        ensures
            l == self.lfsr,
    {
        self.lfsr
    }
}


/// A shape without CONT (0 to 7) plays a single ramp then goes silent:
/// writing it leaves the generators exactly as writing 0x09 (falling) or
/// 0x0F (rising, ATT set) would.
pub proof fn lemma_shapes_without_cont_play_one_ramp(g: Generators, shape: u8)
    requires
        shape < 8,
    ensures
        g.shape_written(shape) == g.shape_written(if shape & 0x04 != 0 { 0x0Fu8 } else { 0x09u8 }),
{
    assert((shape < 8 ==> shape & 0x08 == 0)
        && 0x0Fu8 & 0x04 != 0 && 0x0Fu8 & 0x08 != 0 && 0x0Fu8 & 0x01 != 0 && 0x0Fu8 & 0x02 != 0
        && 0x09u8 & 0x04 == 0 && 0x09u8 & 0x08 != 0 && 0x09u8 & 0x01 != 0 && 0x09u8 & 0x02 == 0) by (bit_vector);
}

} // verus!
