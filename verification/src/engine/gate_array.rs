//! The GA chip's interrupt counter, as the CRTC drives it: an interrupt
//! every 52 HSYNCs, resynchronised on the VSYNC so that the firmware sees
//! the frame flyback on every frame (it commits its inks then), the very
//! first one after power-on included.
//!
//! This counter departs from the machine's GA chip (`crate::gate_array`,
//! which `Machine` runs) on one rule: two HSYNCs after VSYNC starts, it
//! raises an interrupt when bit 5 of the counter is set (at least 32 lines
//! since the last one), where that chip raises one when bit 5 is clear.
//! The reason is the requirement this counter is held to: an interrupt
//! during the VSYNC of every frame from power-on (see
//! `lemma_firmware_settings_interrupt_every_vsync`). With the firmware's
//! settings the VSYNC starts on line 240 of 312, and the counter, at 34 at
//! the check of the first frame, raises nothing under the bit-5-clear
//! rule, whose next interrupt falls 52 lines later, past the VSYNC: that
//! rule meets the requirement only from the second frame on. The
//! machine's chip keeps its own rule, which its own behaviour (a counter of
//! 10 at the check interrupts, one of 40 does not) asks for.

use crate::engine::crtc::{
    at_frame_start, crtc_steps, default_registers, lemma_crtc_steps_one_more, lemma_frame_lasts_frame_length,
    lemma_frame_positions, lemma_vsync_once_per_frame, vsync_start_line, Crtc,
};
use vstd::prelude::*;

verus! {

/// The interrupt counter of the GA chip.
#[derive(Clone, Copy, Debug)]
pub struct GateArray {
    /// 6-bit counter of HSYNCs that generates the interrupts.
    pub hsync_counter: u32,
    /// HSYNCs left before the post-VSYNC check (0 = idle).
    pub vsync_delay: u8,
    /// An interrupt is pending.
    pub interrupt_requested: bool,
}

/// The counter, delay and interrupt after one HSYNC (see `step_hsync`).
pub open spec fn hsync_step(counter: u32, delay: u8, vsync_start: bool) -> (u32, u8, bool) {
    let c1 = (counter + 1) as int;
    let (c2, int1) = if c1 >= 52 { (0int, true) } else { (c1, false) };
    if vsync_start {
        (c2 as u32, 2u8, int1)
    } else if delay > 0 {
        let d = (delay - 1) as u8;
        if d == 0 {
            (0u32, 0u8, int1 || c2 >= 32)
        } else {
            (c2 as u32, d, int1)
        }
    } else {
        (c2 as u32, delay, int1)
    }
}

impl GateArray {
    /// The counter at power-on: at zero, nothing pending.
    pub fn new() -> (g: GateArray)
        ensures
            g.hsync_counter == 0,
            g.vsync_delay == 0,
            !g.interrupt_requested,
    {
        GateArray { hsync_counter: 0, vsync_delay: 0, interrupt_requested: false }
    }

    /// One HSYNC; returns whether it raises an interrupt:
    /// - at 52 HSYNCs: interrupt, counter back to zero;
    /// - 2 HSYNCs after VSYNC starts: interrupt if bit 5 of the counter is
    ///   set (at least 32 lines since the last one, so that two never come
    ///   too close), and the counter back to zero either way.
    /// `vsync_start` is true only on the line where VSYNC starts.
    pub fn step_hsync(&mut self, vsync_start: bool) -> (interrupt: bool)
        requires
            old(self).hsync_counter < u32::MAX,
        ensures
            ({
                let (c, d, i) = hsync_step(old(self).hsync_counter, old(self).vsync_delay, vsync_start);
                &&& interrupt == i
                &&& *final(self) == (GateArray {
                    hsync_counter: c,
                    vsync_delay: d,
                    interrupt_requested: old(self).interrupt_requested || i,
                })
            }),
    {
        let mut interrupt = false;
        self.hsync_counter += 1;
        if self.hsync_counter >= 52 {
            self.hsync_counter = 0;
            interrupt = true;
        }
        if vsync_start {
            self.vsync_delay = 2;
        } else if self.vsync_delay > 0 {
            self.vsync_delay -= 1;
            if self.vsync_delay == 0 {
                let c = self.hsync_counter;
                assert(((c & 0x20) != 0) == (c >= 32)) by (bit_vector)
                    requires c < 52;
                if (self.hsync_counter & 0x20) != 0 {
                    interrupt = true;
                }
                self.hsync_counter = 0;
            }
        }
        if interrupt {
            self.interrupt_requested = true;
        }
        interrupt
    }

    /// The Z80 acknowledges the interrupt: bit 5 of the counter is cleared.
    pub fn acknowledge_interrupt(&mut self)
        ensures
            *final(self) == (GateArray {
                hsync_counter: old(self).hsync_counter & 0x1F,
                interrupt_requested: false,
                ..*old(self)
            }),
    {
        self.hsync_counter &= 0x1F;
        self.interrupt_requested = false;
    }
}

/// The counter is at zero whenever an interrupt is raised, so that the
/// Z80 acknowledging it (bit 5 cleared) changes nothing.
pub proof fn lemma_interrupt_leaves_the_counter_at_zero(counter: u32, delay: u8, vsync_start: bool)
    ensures
        hsync_step(counter, delay, vsync_start).2 ==> hsync_step(counter, delay, vsync_start).0 == 0,
{
}

/// The counter after `k` HSYNCs with no VSYNC and no delay pending, from
/// `counter`.
pub open spec fn hsync_run(counter: u32, k: nat) -> u32
    decreases k,
{
    if k == 0 { counter } else { hsync_step(hsync_run(counter, (k - 1) as nat), 0, false).0 }
}

/// With no VSYNC the counter counts modulo 52.
proof fn lemma_counts_modulo_52(k: nat)
    ensures
        hsync_run(0, k) as int == k % 52,
    decreases k,
{
    if k > 0 {
        lemma_counts_modulo_52((k - 1) as nat);
    }
}

/// The counter and delay after `k` scanlines of the CRTC `c`, from `g`:
/// each HSYNC reaches the GA chip together with the CRTC's VSYNC start.
pub open spec fn driven(c: Crtc, g: (u32, u8), k: nat) -> (u32, u8)
    decreases k,
{
    if k == 0 {
        g
    } else {
        let p = driven(c, g, (k - 1) as nat);
        let s = hsync_step(p.0, p.1, crtc_steps(c, (k - 1) as nat).vsync_starts());
        (s.0, s.1)
    }
}

/// Whether scanline `j` (from 0) of that run raises an interrupt.
pub open spec fn driven_interrupt(c: Crtc, g: (u32, u8), j: nat) -> bool {
    let p = driven(c, g, j);
    hsync_step(p.0, p.1, crtc_steps(c, j).vsync_starts()).2
}

/// The registers the interrupt law asks of the CRTC: the VSYNC row inside
/// the frame (`0 < R7 <= R4`), a VSYNC of at least 3 lines, and at least
/// two lines between its start and the frame's end.
pub open spec fn vsync_inside_frame(c: Crtc) -> bool {
    &&& 0 < c.registers[7] <= c.registers[4]
    &&& ((c.registers[3] >> 4u8) == 0 || (c.registers[3] >> 4u8) >= 3)
    &&& vsync_start_line(c) + 2 <= c.frame_length()
}

/// The VSYNC of a row past the first starts past the first line.
proof fn lemma_vsync_line_positive(c: Crtc)
    requires
        0 < c.registers[7],
    ensures
        vsync_start_line(c) >= 1,
{
    let r7 = c.registers[7] as int;
    let d = (c.registers[9] & 0x1F) as int + 1;
    assert(r7 * d >= 1) by (nonlinear_arith)
        requires r7 >= 1, d >= 1;
}

/// Before the VSYNC starts, the counter merely counts.
proof fn lemma_driven_before_vsync(c: Crtc, m: nat, j: nat)
    requires
        at_frame_start(c),
        vsync_inside_frame(c),
        j + 1 <= vsync_start_line(c),
    ensures
        driven(c, (hsync_run(0, m), 0u8), j) == (hsync_run(0, m + j), 0u8),
    decreases j,
{
    if j > 0 {
        let i = (j - 1) as nat;
        lemma_driven_before_vsync(c, m, i);
        lemma_vsync_once_per_frame(c);
        assert(!crtc_steps(c, i).vsync_starts());
        assert(hsync_run(0, m + j) == hsync_step(hsync_run(0, (m + i) as nat), 0, false).0);
    }
}

/// The VSYNC start and the two HSYNCs after it, from a counter `n` lines
/// past zero: the counter is back at zero with nothing pending, and one of
/// the three raised an interrupt exactly when `n % 52 >= 29` (the check
/// then finds at least 32, or the counter completes 52 on the way).
proof fn lemma_resynchronisation(n: nat)
    ensures
        ({
            let (c1, d1, i1) = hsync_step(hsync_run(0, n), 0, true);
            let (c2, d2, i2) = hsync_step(c1, d1, false);
            let (c3, d3, i3) = hsync_step(c2, d2, false);
            &&& c3 == 0
            &&& d3 == 0
            &&& (i1 || i2 || i3) == (n % 52 >= 29)
        }),
{
    lemma_counts_modulo_52(n);
}

/// After the resynchronisation, the counter counts again from zero.
proof fn lemma_driven_after_vsync(c: Crtc, m: nat, j: nat)
    requires
        at_frame_start(c),
        vsync_inside_frame(c),
        vsync_start_line(c) + 2 <= j <= c.frame_length(),
    ensures
        driven(c, (hsync_run(0, m), 0u8), j) == (hsync_run(0, (j - vsync_start_line(c) - 2) as nat), 0u8),
    decreases j,
{
    let v = vsync_start_line(c);
    let g = (hsync_run(0, m), 0u8);
    lemma_vsync_once_per_frame(c);
    lemma_vsync_line_positive(c);
    if j == v + 2 {
        lemma_driven_before_vsync(c, m, (v - 1) as nat);
        lemma_resynchronisation((m + v - 1) as nat);
        assert(crtc_steps(c, (v - 1) as nat).vsync_starts());
        assert(!crtc_steps(c, v as nat).vsync_starts());
        assert(!crtc_steps(c, (v + 1) as nat).vsync_starts());
        let s1 = hsync_step(hsync_run(0, (m + v - 1) as nat), 0, true);
        assert(driven(c, g, v as nat) == (s1.0, s1.1));
        let s2 = hsync_step(s1.0, s1.1, false);
        assert(driven(c, g, (v + 1) as nat) == (s2.0, s2.1));
        let s3 = hsync_step(s2.0, s2.1, false);
        assert(driven(c, g, (v + 2) as nat) == (s3.0, s3.1));
        assert(hsync_run(0, 0) == 0);
    } else {
        let i = (j - 1) as nat;
        lemma_driven_after_vsync(c, m, i);
        assert(!crtc_steps(c, i).vsync_starts());
        assert(hsync_run(0, (j - v - 2) as nat) == hsync_step(hsync_run(0, (i - v - 2) as nat), 0, false).0);
    }
}

/// One frame of the CRTC `c` driving the interrupt counter, resynchronised
/// `m` lines before the frame started (nothing pending). The CRTC starts
/// the frame at the top, its registers left alone and its VSYNC inside the
/// frame (`vsync_inside_frame`); VSYNC starts on line `v`
/// (`vsync_start_line`), the frame lasts `f` lines (`frame_length`).
/// - On one of the VSYNC's first three lines, the CRTC's VSYNC on, an
///   interrupt is raised exactly when `(m + v - 1) % 52 >= 29`.
/// - At the frame's end the counter has run `f - v - 2` lines from zero,
///   nothing pending: the next frame starts with `m == f - v - 2`.
#[verifier::spinoff_prover]
#[verifier::rlimit(40)]
pub proof fn lemma_interrupt_lands_during_vsync(c: Crtc, m: nat)
    requires
        at_frame_start(c),
        vsync_inside_frame(c),
    ensures
        ({
            let v = vsync_start_line(c);
            let g = (hsync_run(0, m), 0u8);
            &&& v >= 1
            &&& driven(c, g, c.frame_length() as nat) == (hsync_run(0, (c.frame_length() - v - 2) as nat), 0u8)
            &&& ((driven_interrupt(c, g, (v - 1) as nat) || driven_interrupt(c, g, v as nat)
                || driven_interrupt(c, g, (v + 1) as nat)) <==> (m + v - 1) % 52 >= 29)
            &&& crtc_steps(c, v as nat).vsync && crtc_steps(c, (v + 1) as nat).vsync
                && crtc_steps(c, (v + 2) as nat).vsync
        }),
{
    let v = vsync_start_line(c);
    lemma_vsync_line_positive(c);
    lemma_driven_after_vsync(c, m, c.frame_length() as nat);
    lemma_vsync_once_per_frame(c);
    lemma_driven_before_vsync(c, m, (v - 1) as nat);
    lemma_resynchronisation((m + v - 1) as nat);
    assert(crtc_steps(c, (v - 1) as nat).vsync_starts());
    assert(!crtc_steps(c, v as nat).vsync_starts());
    assert(!crtc_steps(c, (v + 1) as nat).vsync_starts());
    lemma_crtc_steps_one_more(c, (v - 1) as nat);
    lemma_crtc_steps_one_more(c, v as nat);
    lemma_crtc_steps_one_more(c, (v + 1) as nat);
    lemma_frame_positions(c, (v - 1) as nat);
    lemma_frame_positions(c, v as nat);
    lemma_frame_positions(c, (v + 1) as nat);
}

/// The CRTC at the top of frame `i`, from `c` at the top of frame 0.
pub open spec fn frame_top(c: Crtc, i: nat) -> Crtc
    decreases i,
{
    if i == 0 {
        c
    } else {
        let t = frame_top(c, (i - 1) as nat);
        crtc_steps(t, t.frame_length() as nat)
    }
}

/// The interrupt counter and delay at the top of frame `i`, from power-on
/// at the top of frame 0.
pub open spec fn frame_counter(c: Crtc, i: nat) -> (u32, u8)
    decreases i,
{
    if i == 0 {
        (0u32, 0u8)
    } else {
        let t = frame_top(c, (i - 1) as nat);
        driven(t, frame_counter(c, (i - 1) as nat), t.frame_length() as nat)
    }
}

/// An interrupt lands during the VSYNC of frame `i`: on one of its first
/// three lines the counter raises one while the CRTC's VSYNC is on.
pub open spec fn interrupt_during_vsync(c: Crtc, i: nat) -> bool {
    let t = frame_top(c, i);
    let g = frame_counter(c, i);
    let v = vsync_start_line(t);
    ||| driven_interrupt(t, g, (v - 1) as nat) && crtc_steps(t, v as nat).vsync
    ||| driven_interrupt(t, g, v as nat) && crtc_steps(t, (v + 1) as nat).vsync
    ||| driven_interrupt(t, g, (v + 1) as nat) && crtc_steps(t, (v + 2) as nat).vsync
}

/// From power-on, the interrupt counter stays locked to the VSYNC: an
/// interrupt lands during the VSYNC of every frame, the first included,
/// the CRTC running from the top of a frame with its registers left alone
/// and its VSYNC inside the frame, when the VSYNC's start line `v` and the
/// frame's length `f` have `(v - 1) % 52 >= 29` (the first frame, counted
/// from power-on) and `(f - 3) % 52 >= 29` (every later one, counted from
/// the previous resynchronisation). The firmware's settings qualify:
/// `v == 240` and `f == 312`.
pub proof fn lemma_interrupt_lands_during_every_vsync(c: Crtc, i: nat)
    requires
        at_frame_start(c),
        vsync_inside_frame(c),
        (vsync_start_line(c) - 1) % 52 >= 29,
        (c.frame_length() - 3) % 52 >= 29,
    ensures
        interrupt_during_vsync(c, i),
{
    lemma_frame_tops(c, i);
    let t = frame_top(c, i);
    let v = vsync_start_line(c);
    let f = c.frame_length();
    lemma_vsync_line_positive(c);
    if i == 0 {
        assert(frame_counter(c, 0) == (hsync_run(0, 0), 0u8));
        lemma_interrupt_lands_during_vsync(t, 0);
    } else {
        let m = (f - v - 2) as nat;
        assert(frame_counter(c, i) == (hsync_run(0, m), 0u8));
        lemma_interrupt_lands_during_vsync(t, m);
        assert(m + v - 1 == f - 3);
    }
}

/// Each frame starts at the top with the registers of the first, and the
/// counter at the top of every frame after the first has run `f - v - 2`
/// lines since its resynchronisation.
proof fn lemma_frame_tops(c: Crtc, i: nat)
    requires
        at_frame_start(c),
        vsync_inside_frame(c),
    ensures
        at_frame_start(frame_top(c, i)),
        frame_top(c, i).registers == c.registers,
        frame_counter(c, i) == if i == 0 {
            (0u32, 0u8)
        } else {
            (hsync_run(0, (c.frame_length() - vsync_start_line(c) - 2) as nat), 0u8)
        },
    decreases i,
{
    if i > 0 {
        let j = (i - 1) as nat;
        lemma_frame_tops(c, j);
        let t = frame_top(c, j);
        lemma_frame_lasts_frame_length(t);
        assert(vsync_inside_frame(t));
        if j == 0 {
            assert(frame_counter(c, j) == (hsync_run(0, 0), 0u8));
            lemma_interrupt_lands_during_vsync(t, 0);
        } else {
            lemma_interrupt_lands_during_vsync(t, (c.frame_length() - vsync_start_line(c) - 2) as nat);
        }
    }
}

/// The firmware's settings (those of `Crtc::new`) qualify for the law
/// above: from power-on, every frame's VSYNC gets its interrupt.
pub proof fn lemma_firmware_settings_interrupt_every_vsync(c: Crtc, i: nat)
    requires
        at_frame_start(c),
        c.registers@ == default_registers(),
    ensures
        interrupt_during_vsync(c, i),
{
    assert(c.registers[3] == 0x8E && c.registers[4] == 38 && c.registers[5] == 0
        && c.registers[7] == 30 && c.registers[9] == 7) by {
        assert(c.registers@[3] == 0x8E && c.registers@[4] == 38 && c.registers@[5] == 0
            && c.registers@[7] == 30 && c.registers@[9] == 7);
    }
    assert((0x8Eu8 >> 4u8) == 8 && (7u8 & 0x1F) == 7 && (0u8 & 0x1F) == 0) by (bit_vector);
    assert(vsync_start_line(c) == 240);
    assert(c.frame_length() == 312);
    lemma_interrupt_lands_during_every_vsync(c, i);
}

} // verus!
