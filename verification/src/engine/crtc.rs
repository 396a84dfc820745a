//! The 6845 CRTC (type 0, HD6845S) of the CPC: its registers and the
//! vertical scan counters that time the frame and its VSYNC.

use vstd::prelude::*;

verus! {

/// Values the 6128 ROM programs at start-up. A real CRTC's registers are
/// undefined at power-on, but the firmware sets them in its first
/// instructions; starting from them avoids a degenerate frame meanwhile.
pub open spec fn default_registers() -> Seq<u8> {
    seq![
        63u8,  // R0: horizontal total
        40,    // R1: characters displayed
        46,    // R2: HSYNC position
        0x8E,  // R3: VSYNC/HSYNC widths
        38,    // R4: vertical total (character rows)
        0,     // R5: vertical adjust (scanlines)
        25,    // R6: character rows displayed
        30,    // R7: VSYNC position
        0,     // R8: interlace
        7,     // R9: scanlines per character row - 1
        0, 0,  // R10-R11: cursor (unused on the CPC)
        0x30, 0x00,  // R12-R13: screen start address (0xC000)
        0, 0, 0, 0,  // R14-R17: cursor, light pen
    ]
}

/// The 6845 video controller: it generates the video RAM addresses, the
/// HSYNC and VSYNC, and sizes the screen.
#[derive(Clone, Copy)]
pub struct Crtc {
    /// Register selected (5 bits).
    pub selected_register: u8,
    /// The 18 registers.
    pub registers: [u8; 18],
    /// Current character row (compared with R4).
    pub char_row: u8,
    /// Scanline within the character row (compared with R9).
    pub raster: u8,
    /// Scanline since the start of the frame.
    pub scanline: u32,
    /// VSYNC active (read by the firmware on bit 0 of PPI port B).
    pub vsync: bool,
    /// VSYNC scanlines left.
    pub vsync_remaining: u8,
    /// Vertical adjust (R5) scanlines left.
    pub adjust_remaining: u8,
}

impl Crtc {
    /// Scanlines of a whole frame as the registers program it: R4 + 1
    /// character rows of R9 + 1 scanlines, plus the vertical adjust R5.
    pub open spec fn frame_length(self) -> int {
        (self.registers[4] as int + 1) * ((self.registers[9] & 0x1F) as int + 1) + (self.registers[5] & 0x1F) as int
    }

    /// The counters after one more scanline (one HSYNC).
    pub open spec fn next_scanline(self) -> Crtc {
        let r4 = self.registers[4];
        let r5 = self.registers[5] & 0x1F;
        let r7 = self.registers[7];
        let r9 = self.registers[9] & 0x1F;
        let width = self.registers[3] >> 4;
        let scanline = if self.scanline == u32::MAX { 0 } else { (self.scanline + 1) as u32 };
        // Vertical counters: the adjust (R5) scanlines freeze the row
        // counters at the end of the frame.
        let (char_row, raster, scanline, adjust) = if self.adjust_remaining > 0 {
            let adjust = (self.adjust_remaining - 1) as u8;
            if adjust == 0 { (0u8, 0u8, 0u32, 0u8) } else { (self.char_row, self.raster, scanline, adjust) }
        } else if self.raster >= r9 {
            if self.char_row >= r4 {
                if r5 > 0 {
                    (if self.char_row == 255 { 0u8 } else { (self.char_row + 1) as u8 }, 0u8, scanline, r5)
                } else {
                    (0u8, 0u8, 0u32, 0u8)
                }
            } else {
                ((self.char_row + 1) as u8, 0u8, scanline, 0u8)
            }
        } else {
            (self.char_row, (self.raster + 1) as u8, scanline, 0u8)
        };
        let counting = if self.vsync_remaining > 0 { (self.vsync_remaining - 1) as u8 } else { 0u8 };
        // VSYNC starts on the first scanline of character row R7; a zero
        // width in R3 means 16 scanlines.
        let starts = adjust == 0 && raster == 0 && char_row == r7;
        let vsync_remaining = if starts { if width == 0 { 16u8 } else { width } } else { counting };
        Crtc {
            char_row,
            raster,
            scanline,
            adjust_remaining: adjust,
            vsync_remaining,
            vsync: vsync_remaining > 0,
            ..self
        }
    }

    /// Whether VSYNC starts on the scanline after `self` (its rising edge).
    pub open spec fn vsync_starts(self) -> bool {
        let n = self.next_scanline();
        n.adjust_remaining == 0 && n.raster == 0 && n.char_row == self.registers[7]
    }

    /// The CRTC at power-on: the registers the firmware programs, register
    /// 0 selected, the counters at the top of a frame, no VSYNC.
    pub open spec fn powered_on(self) -> bool {
        &&& self.selected_register == 0
        &&& self.registers@ == default_registers()
        &&& self.char_row == 0
        &&& self.raster == 0
        &&& self.scanline == 0
        &&& !self.vsync
        &&& self.vsync_remaining == 0
        &&& self.adjust_remaining == 0
    }

    /// A CRTC with the registers the firmware programs, counters at the
    /// top of the frame.
    pub fn new() -> (c: Crtc)
        ensures
            c.powered_on(),
            c.selected_register == 0,
            c.registers@ == default_registers(),
            c.char_row == 0,
            c.raster == 0,
            c.scanline == 0,
            !c.vsync,
            c.vsync_remaining == 0,
            c.adjust_remaining == 0,
    {
        let registers: [u8; 18] = [63, 40, 46, 0x8E, 38, 0, 25, 30, 0, 7, 0, 0, 0x30, 0x00, 0, 0, 0, 0];
        assert(registers@ =~= default_registers());
        Crtc {
            selected_register: 0,
            registers,
            char_row: 0,
            raster: 0,
            scanline: 0,
            vsync: false,
            vsync_remaining: 0,
            adjust_remaining: 0,
        }
    }

    /// Address write (port with bit 14 clear and bit 9 set): selects a
    /// register. The 6845's address register has 5 bits: an out-of-range
    /// number is truncated, not ignored (CRTC type detection routines
    /// select odd numbers before reading back).
    pub fn select_register(&mut self, reg: u8)
        ensures
            *final(self) == (Crtc { selected_register: reg & 0x1F, ..*old(self) }),
    {
        self.selected_register = reg & 0x1F;
    }

    /// Effect of a data write of `val`: `n` after.
    pub open spec fn data_written(self, val: u8, n: Crtc) -> bool {
        &&& self.selected_register < 18 ==> n == (Crtc { registers: n.registers, ..self })
            && n.registers@ == self.registers@.update(self.selected_register as int, val)
        &&& self.selected_register >= 18 ==> n == self
    }

    /// Data write (port with bits 14 and 9 clear) to the selected
    /// register; ignored past R17.
    pub fn write_data(&mut self, val: u8)
        ensures
            old(self).data_written(val, *final(self)),
    {
        let reg = self.selected_register as usize;
        if reg < 18 {
            self.registers[reg] = val;
        }
    }

    /// Read of the data port (&BFxx). Most 6845 registers are write-only;
    /// on the type 0 of the CPC only R12 to R17 read back, the others read
    /// 0.
    pub fn read_data(&self) -> (v: u8)
        ensures
            v == if 12 <= self.selected_register <= 17 { self.registers[self.selected_register as int] } else { 0 },
    {
        if 12 <= self.selected_register && self.selected_register <= 17 {
            self.registers[self.selected_register as usize]
        } else {
            0
        }
    }

    /// Read of the status port (&BExx): the type 0 has no status register,
    /// the port is not driven and reads 0 (which tells it from the types
    /// whose status or data ports read otherwise).
    pub fn read_status(&self) -> (v: u8)
        ensures
            v == 0,
    {
        0
    }

    /// Scanlines of a whole frame as the registers program it (see
    /// `frame_length`). It describes the registers at the time of the call,
    /// not the frame just elapsed.
    pub fn frame_scanlines(&self) -> (n: u32)
        ensures
            n as int == self.frame_length(),
    {
        let r4 = self.registers[4] as u32;
        let b9 = self.registers[9];
        let b5 = self.registers[5];
        proof {
            lemma_five_bits(b9);
            lemma_five_bits(b5);
        }
        let r9 = (b9 & 0x1F) as u32;
        let r5 = (b5 & 0x1F) as u32;
        assert((r4 + 1) * (r9 + 1) <= 256 * 32) by (nonlinear_arith)
            requires r4 < 256, r9 < 32;
        (r4 + 1) * (r9 + 1) + r5
    }

    /// Scanline (from the start of the frame) on which VSYNC starts: R7
    /// character rows of R9 + 1 scanlines. The monitor locks the picture
    /// vertically on it.
    pub fn vsync_scanline(&self) -> (n: u32)
        ensures
            n as int == self.registers[7] as int * ((self.registers[9] & 0x1F) as int + 1),
    {
        let r7 = self.registers[7] as u32;
        let b9 = self.registers[9];
        proof {
            lemma_five_bits(b9);
        }
        let r9 = (b9 & 0x1F) as u32;
        assert(r7 * (r9 + 1) <= 256 * 32) by (nonlinear_arith)
            requires r7 < 256, r9 < 32;
        r7 * (r9 + 1)
    }

    /// Characters of a whole scan line (R0 + 1).
    pub fn line_chars(&self) -> (n: u32)
        ensures
            n == self.registers[0] as u32 + 1,
    {
        self.registers[0] as u32 + 1
    }

    /// Advances the vertical scan by one scanline (called on each HSYNC).
    /// Returns true when VSYNC starts on this scanline (rising edge), which
    /// the GA chip needs to resynchronise its interrupt counter.
    pub fn step_scanline(&mut self) -> (starts: bool)
        ensures
            *final(self) == old(self).next_scanline(),
            starts == old(self).vsync_starts(),
    {
        let r4 = self.registers[4];
        let r5 = self.registers[5] & 0x1F;
        let r7 = self.registers[7];
        let r9 = self.registers[9] & 0x1F;
        let vsync_width = self.registers[3] >> 4;

        self.scanline = self.scanline.wrapping_add(1);

        if self.adjust_remaining > 0 {
            self.adjust_remaining -= 1;
            if self.adjust_remaining == 0 {
                self.char_row = 0;
                self.raster = 0;
                self.scanline = 0;
            }
        } else if self.raster >= r9 {
            self.raster = 0;
            if self.char_row >= r4 {
                if r5 > 0 {
                    self.adjust_remaining = r5;
                    self.char_row = self.char_row.wrapping_add(1);
                } else {
                    self.char_row = 0;
                    self.scanline = 0;
                }
            } else {
                self.char_row += 1;
            }
        } else {
            self.raster += 1;
        }

        if self.vsync_remaining > 0 {
            self.vsync_remaining -= 1;
        }

        let vsync_start = self.adjust_remaining == 0 && self.raster == 0 && self.char_row == r7;
        if vsync_start {
            self.vsync_remaining = if vsync_width == 0 { 16 } else { vsync_width };
        }
        self.vsync = self.vsync_remaining > 0;
        vsync_start
    }
}

impl Default for Crtc {
    fn default() -> (c: Crtc)
        ensures
            c.selected_register == 0,
            c.registers@ == default_registers(),
            c.char_row == 0,
            c.raster == 0,
            c.scanline == 0,
            !c.vsync,
            c.vsync_remaining == 0,
            c.adjust_remaining == 0,
    {
        Crtc::new()
    }
}

/// The CRTC after `k` scanlines.
pub open spec fn crtc_steps(c: Crtc, k: nat) -> Crtc
    decreases k,
{
    if k == 0 { c } else { crtc_steps(c.next_scanline(), (k - 1) as nat) }
}

/// One more scanline after `k`.
pub proof fn lemma_crtc_steps_one_more(c: Crtc, k: nat)
    ensures
        crtc_steps(c, k + 1) == crtc_steps(c, k).next_scanline(),
    decreases k,
{
    reveal_with_fuel(crtc_steps, 2);
    if k > 0 {
        lemma_crtc_steps_one_more(c.next_scanline(), (k - 1) as nat);
        assert(crtc_steps(c, k + 1) == crtc_steps(c.next_scanline(), k));
        assert(crtc_steps(c, k) == crtc_steps(c.next_scanline(), (k - 1) as nat));
    }
}


/// Where a frame of `c`'s geometry stands `k` scanlines after its start:
/// (character row, raster line, vertical-adjust lines left). The rows
/// come first, `R9 + 1` raster lines each, then the `R5` adjust lines.
pub open spec fn frame_position(c: Crtc, k: int) -> (u8, u8, u8) {
    let r4 = c.registers[4] as int;
    let d = (c.registers[9] & 0x1F) as int + 1;
    let r5 = (c.registers[5] & 0x1F) as int;
    let body = (r4 + 1) * d;
    if k < body {
        ((k / d) as u8, (k % d) as u8, 0u8)
    } else {
        ((if r4 == 255 { 0 } else { r4 + 1 }) as u8, 0u8, (r5 - (k - body)) as u8)
    }
}

/// The vertical counters stand at the first scanline of a frame.
pub open spec fn at_frame_start(c: Crtc) -> bool {
    c.char_row == 0 && c.raster == 0 && c.adjust_remaining == 0
}

/// The low five bits of a register are below 32.
pub proof fn lemma_five_bits(b: u8)
    ensures
        b & 0x1F < 32,
        b & 0x1F <= b,
{
    assert(b & 0x1F < 32 && b & 0x1F <= b) by (bit_vector);
}

/// One more scanline within a row, or the first of the next row.
proof fn lemma_next_raster(k: int, d: int)
    requires
        d > 0,
        k >= 0,
    ensures
        0 <= k % d < d,
        k == d * (k / d) + k % d,
        k % d < d - 1 ==> (k + 1) / d == k / d && (k + 1) % d == k % d + 1,
        k % d == d - 1 ==> (k + 1) / d == k / d + 1 && (k + 1) % d == 0,
{
    vstd::arithmetic::div_mod::lemma_fundamental_div_mod(k, d);
    vstd::arithmetic::div_mod::lemma_mod_pos_bound(k, d);
    let q = k / d;
    let r = k % d;
    assert(k == q * d + r) by (nonlinear_arith)
        requires k == d * q + r;
    if r < d - 1 {
        vstd::arithmetic::div_mod::lemma_fundamental_div_mod_converse(k + 1, d, q, r + 1);
    } else {
        assert(k + 1 == (q + 1) * d + 0) by (nonlinear_arith)
            requires k == q * d + r, r == d - 1;
        vstd::arithmetic::div_mod::lemma_fundamental_div_mod_converse(k + 1, d, q + 1, 0);
    }
}

/// Each scanline of a frame, from its start, stands where
/// `frame_position` says, with the registers untouched.
pub proof fn lemma_frame_positions(c: Crtc, k: nat)
    requires
        at_frame_start(c),
        k < c.frame_length(),
    ensures
        ({
            let s = crtc_steps(c, k);
            let (row, raster, adjust) = frame_position(c, k as int);
            &&& s.registers == c.registers
            &&& s.char_row == row
            &&& s.raster == raster
            &&& s.adjust_remaining == adjust
        }),
    decreases k,
{
    let d = (c.registers[9] & 0x1F) as int + 1;
    let r4 = c.registers[4] as int;
    let r5 = (c.registers[5] & 0x1F) as int;
    let body = (r4 + 1) * d;
    assert(d <= 32 && r5 < 32) by {
        let b9 = c.registers[9];
        let b5 = c.registers[5];
        lemma_five_bits(b9);
        lemma_five_bits(b5);
    }
    assert(body >= d) by (nonlinear_arith)
        requires body == (r4 + 1) * d, r4 >= 0, d > 0;
    if k == 0 {
        assert(0int / d == 0 && 0int % d == 0) by (nonlinear_arith)
            requires d > 0;
    } else {
        let j = (k - 1) as nat;
        lemma_frame_positions(c, j);
        lemma_crtc_steps_one_more(c, j);
        let p = crtc_steps(c, j);
        lemma_next_raster(j as int, d);
        if (j as int) < body {
            let q = j as int / d;
            assert(q <= r4) by (nonlinear_arith)
                requires q == j as int / d, (j as int) < (r4 + 1) * d, d > 0, j >= 0;
            if q == r4 && (j as int) % d == d - 1 {
                assert(j as int + 1 == body) by (nonlinear_arith)
                    requires j as int == d * q + (j as int) % d, q == r4, (j as int) % d == d - 1, body == (r4 + 1) * d;
            } else if (j as int) % d == d - 1 {
                assert(j as int + 1 < body) by (nonlinear_arith)
                    requires j as int == d * q + (j as int) % d, q < r4, (j as int) % d == d - 1, body == (r4 + 1) * d;
                assert((j as int + 1) / d == q + 1);
            } else {
                assert(j as int + 1 < body) by (nonlinear_arith)
                    requires j as int == d * q + (j as int) % d, q <= r4, (j as int) % d < d - 1, body == (r4 + 1) * d;
            }
        }
    }
}

/// The scanline counter counts the scanlines of a frame: started at the
/// top of a frame with the counter at 0 and unchanged registers, it reads
/// `k` after `k` scanlines, for every `k` short of the frame's length
/// (where it comes back to 0, see `lemma_frame_lasts_frame_length`).
pub proof fn lemma_scanline_counts_the_frame(c: Crtc)
    requires
        at_frame_start(c),
        c.scanline == 0,
    ensures
        forall|k: nat| k < c.frame_length() ==> #[trigger] crtc_steps(c, k).scanline == k,
{
    assert forall|k: nat| k < c.frame_length() implies #[trigger] crtc_steps(c, k).scanline == k by {
        lemma_scanline_counts_up_to(c, k);
    }
}

/// `lemma_scanline_counts_the_frame` for one `k`, by induction.
proof fn lemma_scanline_counts_up_to(c: Crtc, k: nat)
    requires
        at_frame_start(c),
        c.scanline == 0,
        k < c.frame_length(),
    ensures
        crtc_steps(c, k).scanline == k,
    decreases k,
{
    if k > 0 {
        let j = (k - 1) as nat;
        lemma_scanline_counts_up_to(c, j);
        lemma_crtc_steps_one_more(c, j);
        lemma_frame_lasts_frame_length(c);
        assert(!at_frame_start(crtc_steps(c, k)));
        assert(c.frame_length() <= 256 * 32 + 31) by {
            let b9 = c.registers[9];
            let b5 = c.registers[5];
            lemma_five_bits(b9);
        lemma_five_bits(b5);
            let r4 = c.registers[4] as int;
            let d = (c.registers[9] & 0x1F) as int + 1;
            assert((r4 + 1) * d <= 256 * 32) by (nonlinear_arith)
                requires 0 <= r4 < 256, 1 <= d <= 32;
        }
    }
}

/// A frame lasts `frame_length` scanlines (what `frame_scanlines`
/// reports): started at the top with unchanged registers, the vertical
/// counters come back to the top after exactly that many scanlines, the
/// scanline count starting again from 0, and never before.
pub proof fn lemma_frame_lasts_frame_length(c: Crtc)
    requires
        at_frame_start(c),
    ensures
        forall|k: nat| 0 < k < c.frame_length() ==> !at_frame_start(#[trigger] crtc_steps(c, k)),
        at_frame_start(crtc_steps(c, c.frame_length() as nat)),
        crtc_steps(c, c.frame_length() as nat).scanline == 0,
        crtc_steps(c, c.frame_length() as nat).registers == c.registers,
{
    let d = (c.registers[9] & 0x1F) as int + 1;
    let r4 = c.registers[4] as int;
    let body = (r4 + 1) * d;
    assert(body >= d && d >= 1) by (nonlinear_arith)
        requires body == (r4 + 1) * d, r4 >= 0, d == (c.registers[9] & 0x1F) as int + 1;
    assert(d <= 32) by {
        let b9 = c.registers[9];
        lemma_five_bits(b9);
    }
    assert forall|k: nat| 0 < k < c.frame_length() implies !at_frame_start(#[trigger] crtc_steps(c, k)) by {
        lemma_frame_positions(c, k);
        if (k as int) < body {
            lemma_next_raster(k as int, d);
            let q = (k as int) / d;
            let r = (k as int) % d;
            assert(0 <= q <= r4) by (nonlinear_arith)
                requires q == (k as int) / d, (k as int) < body, body == (r4 + 1) * d, d > 0, k >= 0;
            if q == 0 && r == 0 {
                assert(k as int == 0) by (nonlinear_arith)
                    requires k as int == d * q + r, q == 0, r == 0;
            }
            assert(frame_position(c, k as int).0 == q as u8);
            assert(frame_position(c, k as int).1 == r as u8);
        }
    }
    let n = c.frame_length() as nat;
    lemma_frame_positions(c, (n - 1) as nat);
    lemma_crtc_steps_one_more(c, (n - 1) as nat);
    let j = n - 1;
    if (j as int) < body {
        assert(j as int == r4 * d + (d - 1)) by (nonlinear_arith)
            requires j as int == body - 1, body == (r4 + 1) * d;
        vstd::arithmetic::div_mod::lemma_fundamental_div_mod_converse(j as int, d, r4, d - 1);
    }
}


/// Scanline, counted from the top of the frame, at whose start the VSYNC
/// begins: the first of character row R7 (row 0 begins as the frame wraps).
pub open spec fn vsync_start_line(c: Crtc) -> int {
    if c.registers[7] == 0 {
        c.frame_length()
    } else {
        c.registers[7] as int * ((c.registers[9] & 0x1F) as int + 1)
    }
}

/// The VSYNC starts once per frame, on the first scanline of character row
/// R7, when that row is part of the frame (R7 <= R4), and never otherwise:
/// of the `frame_length` scanlines stepped from the top of a frame with
/// unchanged registers, only the one that reaches `vsync_start_line`
/// reports a VSYNC start.
pub proof fn lemma_vsync_once_per_frame(c: Crtc)
    requires
        at_frame_start(c),
    ensures
        forall|k: nat| k < c.frame_length() ==> (#[trigger] crtc_steps(c, k)).vsync_starts()
            == (c.registers[7] <= c.registers[4] && k + 1 == vsync_start_line(c)),
{
    let d = (c.registers[9] & 0x1F) as int + 1;
    let r4 = c.registers[4] as int;
    let r5 = (c.registers[5] & 0x1F) as int;
    let r7 = c.registers[7] as int;
    let body = (r4 + 1) * d;
    assert(d <= 32 && r5 < 32) by {
        let b9 = c.registers[9];
        let b5 = c.registers[5];
        lemma_five_bits(b9);
        lemma_five_bits(b5);
    }
    assert(body >= d) by (nonlinear_arith)
        requires body == (r4 + 1) * d, r4 >= 0, d > 0;
    lemma_frame_lasts_frame_length(c);
    assert forall|k: nat| k < c.frame_length() implies (#[trigger] crtc_steps(c, k)).vsync_starts()
        == (c.registers[7] <= c.registers[4] && k + 1 == vsync_start_line(c)) by {
        lemma_crtc_steps_one_more(c, k);
        if r7 <= r4 && r7 > 0 {
            assert(r7 * d < body) by (nonlinear_arith)
                requires r7 <= r4, d > 0, body == (r4 + 1) * d;
        }
        if k + 1 < c.frame_length() {
            lemma_frame_positions(c, (k + 1) as nat);
            let m = k as int + 1;
            if m < body {
                lemma_next_raster(m, d);
                let q = m / d;
                let r = m % d;
                assert(0 <= q <= r4) by (nonlinear_arith)
                    requires q == m / d, m < body, body == (r4 + 1) * d, d > 0, m >= 0;
                assert(frame_position(c, m).0 == q as u8);
                assert(frame_position(c, m).1 == r as u8);
                if q == r7 && r == 0 {
                    assert(m == r7 * d) by (nonlinear_arith)
                        requires m == d * q + r, q == r7, r == 0;
                }
                if r7 > 0 && m == r7 * d {
                    assert(m == r7 * d + 0);
                    vstd::arithmetic::div_mod::lemma_fundamental_div_mod_converse(m, d, r7, 0);
                }
                if r7 == 0 && q == 0 && r == 0 {
                    assert(m == 0) by (nonlinear_arith)
                        requires m == d * q + r, q == 0, r == 0;
                }
            }
        }
    }
}

} // verus!
