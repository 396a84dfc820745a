//! The GA chip of the CPC: palette, screen mode, ROM enables and the
//! interrupt counter driven by HSYNC and resynchronised on VSYNC.

use vstd::prelude::*;

verus! {

/// The 27 physical colours of the CPC, as (r, g, b).
pub const CPC_COLORS_RGB: [(u8, u8, u8); 27] = [
    (0, 0, 0),       // 0: black
    (0, 0, 128),     // 1: blue
    (0, 0, 255),     // 2: bright blue
    (128, 0, 0),     // 3: red
    (128, 0, 128),   // 4: magenta
    (128, 0, 255),   // 5: mauve
    (255, 0, 0),     // 6: bright red
    (255, 0, 128),   // 7: purple
    (255, 0, 255),   // 8: bright magenta
    (0, 128, 0),     // 9: green
    (0, 128, 128),   // 10: cyan
    (0, 128, 255),   // 11: sky blue
    (128, 128, 0),   // 12: yellow
    (128, 128, 128), // 13: white (grey)
    (128, 128, 255), // 14: pastel blue
    (255, 128, 0),   // 15: orange
    (255, 128, 128), // 16: pink
    (255, 128, 255), // 17: pastel magenta
    (0, 255, 0),     // 18: bright green
    (0, 255, 128),   // 19: sea green
    (0, 255, 255),   // 20: bright cyan
    (128, 255, 0),   // 21: lime
    (128, 255, 128), // 22: pastel green
    (128, 255, 255), // 23: pastel cyan
    (255, 255, 0),   // 24: bright yellow
    (255, 255, 128), // 25: pastel yellow
    (255, 255, 255), // 26: bright white
];

/// Hardware colour number of the GA chip (0 to 31, the values &40 to
/// &5F written to its port) to physical colour. Five codes (&41, &48,
/// &49, &50, &51) are duplicates the firmware never emits.
pub const HARDWARE_TO_PHYSICAL: [usize; 32] = [
    13, 13, 19, 25, 1, 7, 10, 16, 7, 25, 24, 26, 6, 8, 15, 17,
    0, 2, 18, 20, 0, 2, 9, 11, 4, 22, 21, 23, 3, 5, 12, 14,
];

/// Intensity of a colour component at level 0, 1 or 2.
pub open spec fn level(l: int) -> u8 {
    if l == 0 { 0 } else if l == 1 { 128 } else { 255 }
}

/// Physical colour `i` (0 to 26): green, red and blue levels are the
/// base-3 digits of `i`, green the most significant.
pub open spec fn physical_rgb(i: int) -> (u8, u8, u8) {
    (level((i / 3) % 3), level(i / 9), level(i % 3))
}

/// The hardware-to-physical colour table.
pub open spec fn hardware_table() -> Seq<usize> {
    seq![13usize, 13, 19, 25, 1, 7, 10, 16, 7, 25, 24, 26, 6, 8, 15, 17,
        0, 2, 18, 20, 0, 2, 9, 11, 4, 22, 21, 23, 3, 5, 12, 14]
}

/// The settings of the GA chip that make the picture. Mode and palette
/// may be reprogrammed mid-frame (a "split"): rendering follows this
/// state line by line.
#[derive(Clone, Copy)]
pub struct GateArrayState {
    pub video_mode: u8,
    pub palette: [u8; 17],
}

/// Colour of hardware number `hw` (its 5 low bits).
pub open spec fn hardware_rgb(hw: u8) -> (u8, u8, u8) {
    physical_rgb(hardware_table()[(hw & 0x1F) as int] as int)
}

impl GateArrayState {
    /// RGB colour of an ink (0 to 15 for the pens, 16 for the border);
    /// black past 16.
    pub fn rgb(&self, index: usize) -> (c: (u8, u8, u8))
        ensures
            c == if index < 17 { hardware_rgb(self.palette[index as int]) } else { (0u8, 0u8, 0u8) },
    {
        if index < 17 {
            let raw = self.palette[index];
            let hw = raw & 0x1F;
            assert(raw & 0x1F < 32) by (bit_vector);
            let table = HARDWARE_TO_PHYSICAL;
            assert(table@ =~= hardware_table());
            let physical = table[hw as usize];
            let colors = CPC_COLORS_RGB;
            proof {
                assert(physical < 27);
                assert(colors@ =~= Seq::new(27, |i: int| physical_rgb(i)));
            }
            colors[physical]
        } else {
            (0, 0, 0)
        }
    }
}

/// The GA chip.
pub struct GateArray {
    /// Selected pen (0-15, or 16 for the border).
    pub selected_pen: u8,
    /// Hardware colours of the 16 inks and the border (0-31).
    pub palette: [u8; 17],
    /// Current screen mode (0, 1, 2).
    pub video_mode: u8,
    /// 6-bit counter of HSYNCs that generates the interrupts.
    pub hsync_counter: u32,
    /// HSYNCs left before the post-VSYNC check (0 = idle).
    pub vsync_delay: u8,
    /// An interrupt is pending.
    pub interrupt_requested: bool,
}

/// The counter, delay and interrupt after one HSYNC (see `step_hsync`).
pub open spec fn hsync_step(counter: u32, delay: u8, vsync_start: bool) -> (u32, u8, bool) {
    let c1 = (counter + 1) as int;
    let (c2, int1) = if c1 >= 52 { (0int, true) } else { (c1, false) };
    if vsync_start {
        (c2 as u32, 2u8, int1)
    } else if delay > 0 {
        let d = (delay - 1) as u8;
        if d == 0 {
            (0u32, 0u8, int1 || c2 < 32)
        } else {
            (c2 as u32, d, int1)
        }
    } else {
        (c2 as u32, delay, int1)
    }
}

impl GateArray {
    /// The GA chip at power-on: mode 1, pen 0 selected, every ink grey
    /// (hardware colour 13), the interrupt counter at rest.
    pub open spec fn powered_on(self) -> bool {
        &&& self.selected_pen == 0
        &&& forall|i: int| 0 <= i < 17 ==> #[trigger] self.palette[i] == 13
        &&& self.video_mode == 1
        &&& self.hsync_counter == 0
        &&& self.vsync_delay == 0
        &&& !self.interrupt_requested
    }

    /// A GA chip in mode 1, every ink grey (hardware colour 13).
    pub fn new() -> (g: GateArray)
        ensures
            g.powered_on(),
            g.selected_pen == 0,
            forall|i: int| 0 <= i < 17 ==> g.palette[i] == 13,
            g.video_mode == 1,
            g.hsync_counter == 0,
            g.vsync_delay == 0,
            !g.interrupt_requested,
    {
        GateArray {
            selected_pen: 0,
            palette: [13; 17],
            video_mode: 1,
            hsync_counter: 0,
            vsync_delay: 0,
            interrupt_requested: false,
        }
    }

    /// Snapshot of the settings that make the picture, kept for each
    /// scanline so that rendering follows mid-frame changes.
    pub fn state(&self) -> (s: GateArrayState)
        ensures
            s.video_mode == self.video_mode,
            s.palette == self.palette,
    {
        GateArrayState { video_mode: self.video_mode, palette: self.palette }
    }

    /// Effect of an I/O write of `val`, with the ROM enables `low` and
    /// `high` (held by the memory) before and `nlow`, `nhigh` after.
    pub open spec fn register_written(self, val: u8, low: bool, high: bool, n: GateArray, nlow: bool, nhigh: bool) -> bool {
        &&& (val >> 6 == 0 ==> n == (GateArray {
                selected_pen: if val & 0x10 != 0 { 16 } else { val & 0x0F },
                ..self
            }) && nlow == low && nhigh == high)
        &&& (val >> 6 == 1 ==> n.palette@ == (if self.selected_pen < 17 {
                self.palette@.update(self.selected_pen as int, val & 0x1F)
            } else {
                self.palette@
            }) && n == (GateArray { palette: n.palette, ..self })
                && nlow == low && nhigh == high)
        &&& (val >> 6 == 2 ==> n == (if val & 0x10 != 0 {
                GateArray { video_mode: val & 0x03, hsync_counter: 0, vsync_delay: 0, interrupt_requested: false, ..self }
            } else {
                GateArray { video_mode: val & 0x03, ..self }
            }) && nlow == (val & 0x04 == 0) && nhigh == (val & 0x08 == 0))
        &&& (val >> 6 == 3 ==> n == self
                && nlow == low && nhigh == high)
    }

    /// An I/O write (port & 0xC000 == 0x4000), decoded by bits 7-6 of the
    /// value: 0 selects a pen (bit 4: the border), 1 sets the selected
    /// pen's colour, 2 sets the mode (bits 1-0), the lower and upper ROM
    /// enables (bits 2 and 3, 0 enables) and, with bit 4, resets the
    /// interrupt counter; 3 belongs to the MMU, not to the GA chip.
    pub fn write_register(&mut self, val: u8, rom_low_enabled: &mut bool, rom_high_enabled: &mut bool)
        ensures
            old(self).register_written(val, *old(rom_low_enabled), *old(rom_high_enabled), *final(self),
                *final(rom_low_enabled), *final(rom_high_enabled)),
    {
        let sel = val >> 6;
        if sel == 0 {
            if (val & 0x10) != 0 {
                self.selected_pen = 16;
            } else {
                self.selected_pen = val & 0x0F;
            }
        } else if sel == 1 {
            if (self.selected_pen as usize) < 17 {
                self.palette[self.selected_pen as usize] = val & 0x1F;
            }
        } else if sel == 2 {
            self.video_mode = val & 0x03;
            *rom_low_enabled = (val & 0x04) == 0;
            *rom_high_enabled = (val & 0x08) == 0;
            if (val & 0x10) != 0 {
                self.hsync_counter = 0;
                self.vsync_delay = 0;
                self.interrupt_requested = false;
            }
        }
    }

    /// Advances the interrupt counter by one line (on each HSYNC); true
    /// when an interrupt is raised. The 6-bit counter is resynchronised on
    /// the CRTC's VSYNC, so that an interrupt always falls just after the
    /// frame flyback starts (the firmware commits its inks then):
    /// - at 52 HSYNCs: interrupt, counter back to zero;
    /// - 2 HSYNCs after VSYNC starts: interrupt if bit 5 of the counter is
    ///   clear (counter below 32), and the counter back to zero either way.
    /// `vsync_start` is true only on the line where VSYNC starts.
    pub fn step_hsync(&mut self, vsync_start: bool) -> (interrupt: bool)
        requires
            old(self).hsync_counter < u32::MAX,
        ensures
            ({
                let (c, d, i) = hsync_step(old(self).hsync_counter, old(self).vsync_delay, vsync_start);
                &&& interrupt == i
                &&& *final(self) == (GateArray {
                    hsync_counter: c,
                    vsync_delay: d,
                    interrupt_requested: old(self).interrupt_requested || i,
                    ..*old(self)
                })
            }),
    {
        let mut interrupt = false;
        self.hsync_counter += 1;
        if self.hsync_counter >= 52 {
            self.hsync_counter = 0;
            interrupt = true;
        }
        if vsync_start {
            self.vsync_delay = 2;
        } else if self.vsync_delay > 0 {
            self.vsync_delay -= 1;
            if self.vsync_delay == 0 {
                let c = self.hsync_counter;
                assert((c & 0x20 == 0) == (c < 32)) by (bit_vector)
                    requires c <= 52;
                if (self.hsync_counter & 0x20) == 0 {
                    interrupt = true;
                }
                self.hsync_counter = 0;
            }
        }
        if interrupt {
            self.interrupt_requested = true;
        }
        interrupt
    }

    /// The Z80 acknowledges the interrupt: the GA chip clears bit 5 of
    /// the counter, so that at least 32 lines pass before the next one.
    pub fn acknowledge_interrupt(&mut self)
        ensures
            *final(self) == (GateArray {
                hsync_counter: old(self).hsync_counter & 0x1F,
                interrupt_requested: false,
                ..*old(self)
            }),
    {
        self.hsync_counter &= 0x1F;
        self.interrupt_requested = false;
    }
}

/// The 27 colours are every combination of red, green and blue taken
/// among the three intensities 0, 128 and 255, each exactly once.
pub proof fn lemma_colours_are_the_27_combinations(i: int, j: int)
    requires
        0 <= i < 27,
        0 <= j < 27,
    ensures
        physical_rgb(i) == physical_rgb(j) ==> i == j,
        ({
            let (r, g, b) = physical_rgb(i);
            &&& (r == 0 || r == 128 || r == 255)
            &&& (g == 0 || g == 128 || g == 255)
            &&& (b == 0 || b == 128 || b == 255)
        }),
{
}


/// The interrupt counter after `k` HSYNCs with no VSYNC and no delay
/// pending, from `counter`.
pub open spec fn hsync_run(counter: u32, k: nat) -> u32
    decreases k,
{
    if k == 0 { counter } else { hsync_step(hsync_run(counter, (k - 1) as nat), 0, false).0 }
}

/// With no VSYNC, the GA chip raises an interrupt every 52 lines: `k`
/// HSYNCs after `counter` the counter stands at `(counter + k) % 52`, and
/// the next HSYNC raises an interrupt exactly when it completes a group of
/// 52.
pub proof fn lemma_interrupt_every_52_lines(counter: u32, k: nat)
    requires
        counter < 52,
    ensures
        hsync_run(counter, k) as int == (counter + k) % 52,
        hsync_step(hsync_run(counter, k), 0, false).2 == ((counter + k + 1) % 52 == 0),
        hsync_step(hsync_run(counter, k), 0, false).1 == 0,
    decreases k,
{
    if k > 0 {
        lemma_interrupt_every_52_lines(counter, (k - 1) as nat);
    }
}

/// The counter is resynchronised on the VSYNC: two HSYNCs after the one on
/// which VSYNC starts, it is back at zero with no delay pending, and that
/// second HSYNC raises an interrupt exactly when the counter had reached
/// 52 or stood below 32.
pub proof fn lemma_vsync_resynchronises_the_counter(counter: u32, delay: u8)
    requires
        counter < 52,
    ensures
        ({
            let (c1, d1, _) = hsync_step(counter, delay, true);
            let (c2, d2, _) = hsync_step(c1, d1, false);
            let (c3, d3, i3) = hsync_step(c2, d2, false);
            &&& c3 == 0
            &&& d3 == 0
            &&& i3 == (((c2 + 1) as int) >= 52 || ((c2 + 1) as int) < 32)
        }),
{
}

/// Whether a frame's VSYNC gets an interrupt. Counting from a counter at
/// zero with nothing pending (just after power-on, or just after the
/// previous resynchronisation), let `n` HSYNCs pass without VSYNC, then the
/// one on which VSYNC starts and the two after it: the counter is back at
/// zero with nothing pending, and one of those three HSYNCs (all within a
/// VSYNC of at least 3 lines) raised an interrupt exactly when
/// `(n + 3) % 52 < 32`. Acknowledging an interrupt on the way changes
/// nothing: the counter is at zero whenever one is raised. From one
/// resynchronisation to the next a frame of `f` lines has `n == f - 3`.
pub proof fn lemma_interrupt_during_vsync(n: nat)
    ensures
        ({
            let c = hsync_run(0, n);
            let (c1, d1, i1) = hsync_step(c, 0, true);
            let (c2, d2, i2) = hsync_step(c1, d1, false);
            let (c3, d3, i3) = hsync_step(c2, d2, false);
            &&& c3 == 0
            &&& d3 == 0
            &&& (i1 || i2 || i3) == ((n + 3) % 52 < 32)
        }),
        forall|k: nat| k < n ==> #[trigger] hsync_step(hsync_run(0, k), 0, false).2
            ==> hsync_step(hsync_run(0, k), 0, false).0 == 0,
{
    lemma_interrupt_every_52_lines(0, n);
    assert forall|k: nat| k < n implies #[trigger] hsync_step(hsync_run(0, k), 0, false).2
        ==> hsync_step(hsync_run(0, k), 0, false).0 == 0 by {
        lemma_interrupt_every_52_lines(0, k);
    }
    let c = n as int % 52;
    assert(0 <= c < 52);
    assert((n + 3) % 52 == (c + 3) % 52) by (nonlinear_arith)
        requires c == n as int % 52, n >= 0;
}

} // verus!
