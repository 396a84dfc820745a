//! Placing the picture in the monitor window, capturing the video RAM the
//! beam scans, and painting bytes as pixels in each screen mode.

use vstd::prelude::*;
use crate::engine::crtc::Crtc;
use crate::engine::memory::Memory;
use crate::gate_array::{hardware_rgb, GateArrayState};
use crate::machine::Machine;

verus! {

/// Size of the frame buffer (a monitor window, border included).
pub const SCREEN_WIDTH: usize = 800;
pub const SCREEN_HEIGHT: usize = 600;

/// The monitor knows no absolute coordinates: it locks on the sync
/// signals. These are its flyback times (back porch) in CRTC units,
/// calibrated to centre a standard 40x25 screen in the window.
pub const H_BACK_PORCH_CHARS: i32 = 13;
pub const V_BACK_PORCH_LINES: i32 = 22;

/// A CRTC character is 2 bytes, rendered 16 pixels wide.
pub const PIXELS_PER_CHAR: i32 = 16;

/// Each CPC scanline is doubled vertically in the buffer.
pub const PIXELS_PER_SCANLINE: i32 = 2;

/// Euclidean remainder of `a` by `m` (never negative).
fn rem_euclid(a: i64, m: i64) -> (r: i64)
    requires
        m > 0,
        a > i64::MIN,
    ensures
        r == a % m,
        0 <= r < m,
{
    if a >= 0 {
        ((a as u64) % (m as u64)) as i64
    } else {
        let p = (-a) as u64;
        let q = p / (m as u64);
        let r0 = p % (m as u64);
        proof {
            vstd::arithmetic::div_mod::lemma_fundamental_div_mod(p as int, m as int);
            assert(p as int == (m as int) * (q as int) + r0 as int);
            if r0 == 0 {
                assert(a as int == (-(q as int)) * (m as int) + 0) by (nonlinear_arith)
                    requires p as int == (m as int) * (q as int) + r0 as int, a == -(p as int), r0 == 0;
                vstd::arithmetic::div_mod::lemma_fundamental_div_mod_converse_mod(a as int, m as int, -(q as int), 0);
            } else {
                assert(a as int == (-(q as int) - 1) * (m as int) + (m - r0)) by (nonlinear_arith)
                    requires p as int == (m as int) * (q as int) + r0 as int, a == -(p as int);
                vstd::arithmetic::div_mod::lemma_fundamental_div_mod_converse_mod(a as int, m as int, -(q as int) - 1, m - r0);
            }
        }
        if r0 == 0 { 0 } else { m - r0 as i64 }
    }
}

/// Abscissa of the first pixel of a character column, measured from
/// HSYNC: the characters since the last HSYNC (R2), less the back porch.
pub open spec fn column_x(x_char: int, r2: int, line_chars: int) -> int {
    ((x_char - r2) % line_chars - H_BACK_PORCH_CHARS) * PIXELS_PER_CHAR
}

/// Ordinate of the first buffer line of a scanline, measured from VSYNC.
pub open spec fn line_y(scanline: int, vsync_scanline: int, frame_scanlines: int) -> int {
    ((scanline - vsync_scanline) % frame_scanlines - V_BACK_PORCH_LINES) * PIXELS_PER_SCANLINE
}

/// Abscissa of the first pixel of character column `x_char` (see
/// `column_x`).
pub fn char_x(x_char: u32, r2: i32, line_chars: i32) -> (x: i32)
    requires
        x_char <= i32::MAX,
        i32::MIN <= x_char - r2 <= i32::MAX,
        0 < line_chars,
        (line_chars - 1 - H_BACK_PORCH_CHARS) * PIXELS_PER_CHAR <= i32::MAX,
    ensures
        x as int == column_x(x_char as int, r2 as int, line_chars as int),
{
    let since = rem_euclid(x_char as i64 - r2 as i64, line_chars as i64);
    ((since - 13) * 16) as i32
}

/// Ordinate of the first buffer line of `scanline` (see `line_y`).
pub fn scanline_y(scanline: u32, vsync_scanline: i32, frame_scanlines: i32) -> (y: i32)
    requires
        scanline <= i32::MAX,
        i32::MIN <= scanline - vsync_scanline <= i32::MAX,
        0 < frame_scanlines,
        (frame_scanlines - 1 - V_BACK_PORCH_LINES) * PIXELS_PER_SCANLINE <= i32::MAX,
    ensures
        y as int == line_y(scanline as int, vsync_scanline as int, frame_scanlines as int),
{
    let since = rem_euclid(scanline as i64 - vsync_scanline as i64, frame_scanlines as i64);
    ((since - 22) * 2) as i32
}

/// Video RAM address of byte 0 of character `x_char` of the current
/// scanline of `crtc`: the MA counter starts from R12/R13 on each character
/// row and advances by R1; RA gives only 3 address bits (past 8 scanlines
/// per row the same bytes show again).
pub open spec fn char_address(crtc: Crtc, x_char: int) -> u16 {
    let r1 = crtc.registers[1] as int;
    let start = ((crtc.registers[12] as u16) << 8) | (crtc.registers[13] as u16);
    let line_ma = start.wrapping_add((crtc.char_row as int * r1) as u16) & 0x3FFF;
    let ma = line_ma.wrapping_add(x_char as u16) & 0x3FFF;
    ((ma & 0x3000) << 2) | (((crtc.raster as u16) & 0x07) << 11) | ((ma & 0x03FF) << 1)
}

/// The bytes the beam reads for characters `from..to` of the current
/// scanline: two per character.
pub open spec fn captured_bytes(crtc: Crtc, ram: Seq<u8>, from: int, to: int) -> Seq<u8>
    decreases to - from,
{
    if to <= from {
        Seq::empty()
    } else {
        let a = char_address(crtc, to - 1);
        captured_bytes(crtc, ram, from, to - 1)
            + seq![ram[a as int], ram[a.wrapping_add(1) as int]]
    }
}

/// Captures the video RAM bytes shown on the current scanline of the CRTC
/// up to character `upto_char`, where the beam has got to: only the
/// character positions newly passed are appended to `out` (two bytes
/// each), so that a write mid-line shows on the part not yet scanned only.
/// Nothing is captured outside the display window (R1 characters, R6
/// character rows).
pub fn capture_scanline_chars(crtc: &Crtc, memory: &Memory, out: &mut Vec<u8>, upto_char: u32)
    requires
        memory.wf(),
    ensures
        ({
            let r1 = crtc.registers[1] as int;
            let r6 = crtc.registers[6] as int;
            let target = if upto_char < r1 { upto_char as int } else { r1 };
            let already = old(out)@.len() / 2;
            if r1 == 0 || crtc.char_row >= r6 || already >= target {
                final(out)@ == old(out)@
            } else {
                final(out)@ == old(out)@ + captured_bytes(*crtc, memory.ram@, already as int, target)
            }
        }),
{
    let r1 = crtc.registers[1] as u32;
    let r6 = crtc.registers[6] as u32;
    if r1 == 0 || (crtc.char_row as u32) >= r6 {
        return;
    }
    // The CRTC reads the video RAM only in the display window, the first
    // R1 characters of the line; past them the beam is in the border.
    let target = if upto_char < r1 { upto_char } else { r1 };
    let len = out.len();
    if len / 2 >= target as usize {
        return;
    }
    let already = (len / 2) as u32;
    let start_addr = ((crtc.registers[12] as u16) << 8) | (crtc.registers[13] as u16);
    assert(crtc.char_row as u32 * r1 <= 255 * 255) by (nonlinear_arith)
        requires crtc.char_row < 256, r1 < 256;
    let row_offset = (crtc.char_row as u32 * r1) as u16;
    let line_ma = start_addr.wrapping_add(row_offset) & 0x3FFF;
    let raster = crtc.raster as u16;
    let ghost before = out@;
    let mut x_char = already;
    while x_char < target
        invariant
            already <= x_char <= target,
            target <= r1,
            r1 == crtc.registers[1] as int,
            memory.wf(),
            start_addr == ((crtc.registers[12] as u16) << 8) | (crtc.registers[13] as u16),
            line_ma == start_addr.wrapping_add((crtc.char_row as int * r1) as u16) & 0x3FFF,
            raster == crtc.raster as u16,
            out@ == before + captured_bytes(*crtc, memory.ram@, already as int, x_char as int),
        decreases target - x_char,
    {
        let ma = line_ma.wrapping_add(x_char as u16) & 0x3FFF;
        let addr_base = ((ma & 0x3000) << 2) | ((raster & 0x07) << 11) | ((ma & 0x03FF) << 1);
        assert(addr_base == char_address(*crtc, x_char as int));
        out.push(memory.read_video_ram_byte(addr_base));
        out.push(memory.read_video_ram_byte(addr_base.wrapping_add(1)));
        x_char += 1;
        assert(out@ =~= before + captured_bytes(*crtc, memory.ram@, already as int, x_char as int));
    }
}


/// Component `c` (0 red, 1 green, 2 blue) of a colour.
pub open spec fn component(rgb: (u8, u8, u8), c: int) -> u8 {
    if c == 0 { rgb.0 } else if c == 1 { rgb.1 } else { rgb.2 }
}

/// `new` is the frame buffer `old` with line `y` painted where `colour`
/// gives a colour to a column (within the window), unchanged elsewhere.
pub open spec fn row_painted(old: Seq<u8>, new: Seq<u8>, y: int, colour: spec_fn(int) -> Option<(u8, u8, u8)>) -> bool {
    &&& new.len() == old.len()
    &&& forall|i: int| 0 <= i < old.len() ==> #[trigger] new[i] == {
        let p = i / 3;
        if p / (SCREEN_WIDTH as int) == y && colour(p % (SCREEN_WIDTH as int)) is Some {
            component(colour(p % (SCREEN_WIDTH as int))->0, i % 3)
        } else {
            old[i]
        }
    }
}

/// The colour of a run of `width` pixels from `x_start`.
pub open spec fn run(x_start: int, width: int, rgb: (u8, u8, u8)) -> spec_fn(int) -> Option<(u8, u8, u8)> {
    |x: int| if x_start <= x < x_start + width { Some(rgb) } else { None }
}

/// Writes one pixel of the buffer, dropping whatever falls outside the
/// window.
pub fn put_pixel(frame_buffer: &mut [u8], x: i32, y: usize, rgb: (u8, u8, u8))
    requires
        old(frame_buffer)@.len() == SCREEN_WIDTH * SCREEN_HEIGHT * 3,
        y < SCREEN_HEIGHT,
    ensures
        row_painted(old(frame_buffer)@, final(frame_buffer)@, y as int, run(x as int, 1, rgb)),
{
    if x < 0 || x >= SCREEN_WIDTH as i32 {
        assert(final(frame_buffer)@ =~= old(frame_buffer)@);
        return;
    }
    let idx = (y * SCREEN_WIDTH + x as usize) * 3;
    frame_buffer[idx] = rgb.0;
    frame_buffer[idx + 1] = rgb.1;
    frame_buffer[idx + 2] = rgb.2;
    assert forall|i: int| 0 <= i < old(frame_buffer)@.len() implies #[trigger] frame_buffer@[i] == {
        let p = i / 3;
        if p / (SCREEN_WIDTH as int) == y && run(x as int, 1, rgb)(p % (SCREEN_WIDTH as int)) is Some {
            component(run(x as int, 1, rgb)(p % (SCREEN_WIDTH as int))->0, i % 3)
        } else {
            old(frame_buffer)@[i]
        }
    } by {
        let p = i / 3;
        let target = y as int * 800 + x as int;
        assert((p / 800 == y && p % 800 == x) ==> (p == target)) by (nonlinear_arith)
            requires target == y as int * 800 + x as int, 0 <= x < 800, p >= 0;
        assert((p == target) ==> (p / 800 == y && p % 800 == x)) by (nonlinear_arith)
            requires target == y as int * 800 + x as int, 0 <= x < 800, p >= 0;
        assert((i == 3 * target || i == 3 * target + 1 || i == 3 * target + 2) == (p == target)) by (nonlinear_arith)
            requires p == i / 3, i >= 0;
        assert(i == 3 * target ==> i % 3 == 0);
        assert(i == 3 * target + 1 ==> i % 3 == 1);
        assert(i == 3 * target + 2 ==> i % 3 == 2);
    }
}

/// Paints `width` consecutive pixels of ink `color_idx`.
pub fn draw_pixel_run(state: &GateArrayState, frame_buffer: &mut [u8], color_idx: u8, x_start: i32, width: i32, y: usize)
    requires
        old(frame_buffer)@.len() == SCREEN_WIDTH * SCREEN_HEIGHT * 3,
        y < SCREEN_HEIGHT,
        -0x4000_0000 <= x_start <= 0x4000_0000,
        0 <= width <= 0x4000_0000,
    ensures
        row_painted(old(frame_buffer)@, final(frame_buffer)@, y as int,
            run(x_start as int, width as int, ink_rgb(*state, color_idx as int))),
{
    let rgb = state.rgb(color_idx as usize);
    let mut dx: i32 = 0;
    while dx < width
        invariant
            0 <= dx <= width,
            -0x4000_0000 <= x_start <= 0x4000_0000,
            width <= 0x4000_0000,
            y < SCREEN_HEIGHT,
            frame_buffer@.len() == SCREEN_WIDTH * SCREEN_HEIGHT * 3,
            rgb == ink_rgb(*state, color_idx as int),
            row_painted(old(frame_buffer)@, frame_buffer@, y as int, run(x_start as int, dx as int, rgb)),
        decreases width - dx,
    {
        let ghost before = frame_buffer@;
        put_pixel(frame_buffer, x_start + dx, y, rgb);
        assert forall|i: int| 0 <= i < old(frame_buffer)@.len() implies #[trigger] frame_buffer@[i] == {
            let p = i / 3;
            if p / (SCREEN_WIDTH as int) == y && run(x_start as int, dx + 1, rgb)(p % (SCREEN_WIDTH as int)) is Some {
                component(run(x_start as int, dx + 1, rgb)(p % (SCREEN_WIDTH as int))->0, i % 3)
            } else {
                old(frame_buffer)@[i]
            }
        } by {}
        dx += 1;
    }
}

/// Colour of ink `index` in `state` (black past the border, 16).
pub open spec fn ink_rgb(state: GateArrayState, index: int) -> (u8, u8, u8) {
    if 0 <= index < 17 { hardware_rgb(state.palette[index]) } else { (0u8, 0u8, 0u8) }
}


/// Ink of pixel `k` of a byte in mode 0 (2 pixels of 4 bits, bits
/// interleaved), 1 (4 pixels of 2 bits) or 2 (8 pixels of 1 bit).
pub open spec fn pixel_ink(mode: int, byte: u8, k: int) -> u8 {
    if mode == 0 {
        if k == 0 {
            ((byte & 0x80) >> 7) | ((byte & 0x08) >> 2) | ((byte & 0x20) >> 3) | ((byte & 0x02) << 2)
        } else {
            ((byte & 0x40) >> 6) | ((byte & 0x04) >> 1) | ((byte & 0x10) >> 2) | ((byte & 0x01) << 3)
        }
    } else if mode == 1 {
        if k == 0 { ((byte & 0x80) >> 7) | ((byte & 0x08) >> 2) }
        else if k == 1 { ((byte & 0x40) >> 6) | ((byte & 0x04) >> 1) }
        else if k == 2 { ((byte & 0x20) >> 5) | (byte & 0x02) }
        else { ((byte & 0x10) >> 4) | ((byte & 0x01) << 1) }
    } else {
        (byte >> ((7 - k) as u8)) & 1
    }
}

/// Width in pixels of one pixel of the CPC in `mode`, in the buffer.
pub open spec fn pixel_width(mode: int) -> int {
    if mode == 0 { 4 } else if mode == 1 { 2 } else { 1 }
}

/// The colours a byte paints in `mode`: its first `pixels` pixels from
/// `x_byte`, each `pixel_width(mode)` buffer pixels wide.
pub open spec fn byte_colours(state: GateArrayState, mode: int, byte: u8, x_byte: int, pixels: int) -> spec_fn(int) -> Option<(u8, u8, u8)> {
    |x: int| if x_byte <= x < x_byte + pixels * pixel_width(mode) {
        Some(ink_rgb(state, pixel_ink(mode, byte, (x - x_byte) / pixel_width(mode)) as int))
    } else {
        None
    }
}

/// The pixel inks of modes 0 and 1 over the byte's bits, the pixels taken
/// with their bit patterns shifted to the top of the byte.
proof fn lemma_pixel_bits(b: u8)
    ensures
        ((b & 0x80) >> 7) | ((b & 0x08) >> 2) == ((b >> 7u8) & 1) | (((b >> 3u8) & 1) << 1u8),
        ((b & 0x40) >> 6) | ((b & 0x04) >> 1) == ((b >> 6u8) & 1) | (((b >> 2u8) & 1) << 1u8),
        ((b & 0x20) >> 5) | (b & 0x02) == ((b >> 5u8) & 1) | (((b >> 1u8) & 1) << 1u8),
        ((b & 0x10) >> 4) | ((b & 0x01) << 1) == ((b >> 4u8) & 1) | (((b >> 0u8) & 1) << 1u8),
        ((b & 0x80) >> 7) | ((b & 0x08) >> 2) | ((b & 0x20) >> 3) | ((b & 0x02) << 2)
            == ((b >> 7u8) & 1) | (((b >> 3u8) & 1) << 1u8) | (((b >> 5u8) & 1) << 2u8) | (((b >> 1u8) & 1) << 3u8),
        ((b & 0x40) >> 6) | ((b & 0x04) >> 1) | ((b & 0x10) >> 2) | ((b & 0x01) << 3)
            == ((b >> 6u8) & 1) | (((b >> 2u8) & 1) << 1u8) | (((b >> 4u8) & 1) << 2u8) | (((b >> 0u8) & 1) << 3u8),
{
    assert(
        ((b & 0x80) >> 7) | ((b & 0x08) >> 2) == ((b >> 7u8) & 1) | (((b >> 3u8) & 1) << 1u8)
        && ((b & 0x40) >> 6) | ((b & 0x04) >> 1) == ((b >> 6u8) & 1) | (((b >> 2u8) & 1) << 1u8)
        && ((b & 0x20) >> 5) | (b & 0x02) == ((b >> 5u8) & 1) | (((b >> 1u8) & 1) << 1u8)
        && ((b & 0x10) >> 4) | ((b & 0x01) << 1) == ((b >> 4u8) & 1) | (((b >> 0u8) & 1) << 1u8)
        && ((b & 0x80) >> 7) | ((b & 0x08) >> 2) | ((b & 0x20) >> 3) | ((b & 0x02) << 2)
            == ((b >> 7u8) & 1) | (((b >> 3u8) & 1) << 1u8) | (((b >> 5u8) & 1) << 2u8) | (((b >> 1u8) & 1) << 3u8)
        && ((b & 0x40) >> 6) | ((b & 0x04) >> 1) | ((b & 0x10) >> 2) | ((b & 0x01) << 3)
            == ((b >> 6u8) & 1) | (((b >> 2u8) & 1) << 1u8) | (((b >> 4u8) & 1) << 2u8) | (((b >> 0u8) & 1) << 3u8)
    ) by (bit_vector);
}

/// How a screen byte is split into pixels, the CPC's layout: in mode 1,
/// pixel `k` (0 to 3, left to right) takes bit 0 of its ink from bit
/// `7 - k` of the byte and bit 1 from bit `3 - k` (so byte 0x02 paints
/// its third pixel with ink 2); in mode 0, pixel `k` (0 or 1) takes ink
/// bits 0 to 3 from byte bits `7 - k`, `3 - k`, `5 - k` and `1 - k`; in
/// mode 2, pixel `k` (0 to 7) is bit `7 - k`, the leftmost the top. What
/// the byte paints (`byte_colours`, as the renderer paints it) follows:
/// each pixel's buffer pixels show that ink's colour.
pub proof fn lemma_pixel_bit_layout(state: GateArrayState, byte: u8, k: int, x_byte: int, x: int)
    ensures
        0 <= k < 4 ==> pixel_ink(1, byte, k)
            == ((byte >> (7 - k) as u8) & 1) | (((byte >> (3 - k) as u8) & 1) << 1u8),
        0 <= k < 2 ==> pixel_ink(0, byte, k)
            == ((byte >> (7 - k) as u8) & 1) | (((byte >> (3 - k) as u8) & 1) << 1u8)
                | (((byte >> (5 - k) as u8) & 1) << 2u8) | (((byte >> (1 - k) as u8) & 1) << 3u8),
        0 <= k < 8 ==> pixel_ink(2, byte, k) == (byte >> (7 - k) as u8) & 1,
        0 <= k < 4 && x_byte + 2 * k <= x < x_byte + 2 * k + 2 ==> byte_colours(state, 1, byte, x_byte, 4)(x)
            == Some(ink_rgb(state, (((byte >> (7 - k) as u8) & 1) | (((byte >> (3 - k) as u8) & 1) << 1u8)) as int)),
{
    lemma_pixel_bits(byte);
    if 0 <= k < 4 && x_byte + 2 * k <= x < x_byte + 2 * k + 2 {
        assert((x - x_byte) / 2 == k);
    }
}

/// Painting a line twice: the second paint wins where it paints.
pub proof fn lemma_paint_twice(a: Seq<u8>, b: Seq<u8>, c: Seq<u8>, y: int,
    f: spec_fn(int) -> Option<(u8, u8, u8)>, g: spec_fn(int) -> Option<(u8, u8, u8)>,
    h: spec_fn(int) -> Option<(u8, u8, u8)>)
    requires
        row_painted(a, b, y, f),
        row_painted(b, c, y, g),
        forall|x: int| #[trigger] h(x) == if g(x) is Some { g(x) } else { f(x) },
    ensures
        row_painted(a, c, y, h),
{
    assert forall|i: int| 0 <= i < a.len() implies #[trigger] c[i] == {
        let p = i / 3;
        if p / (SCREEN_WIDTH as int) == y && h(p % (SCREEN_WIDTH as int)) is Some {
            component(h(p % (SCREEN_WIDTH as int))->0, i % 3)
        } else {
            a[i]
        }
    } by {
        let p = i / 3;
        assert(h(p % (SCREEN_WIDTH as int)) == if g(p % (SCREEN_WIDTH as int)) is Some {
            g(p % (SCREEN_WIDTH as int))
        } else {
            f(p % (SCREEN_WIDTH as int))
        });
        assert(b[i] == c[i] || g(p % (SCREEN_WIDTH as int)) is Some || p / (SCREEN_WIDTH as int) != y);
    }
}

/// Paints the pixels of `byte` in `mode` from `x_byte` on line `y`.
fn render_byte(state: &GateArrayState, frame_buffer: &mut [u8], mode: u8, byte: u8, x_byte: i32, y: usize)
    requires
        mode <= 2,
        old(frame_buffer)@.len() == SCREEN_WIDTH * SCREEN_HEIGHT * 3,
        y < SCREEN_HEIGHT,
        -0x1000_0000 <= x_byte <= 0x1000_0000,
    ensures
        row_painted(old(frame_buffer)@, final(frame_buffer)@, y as int,
            byte_colours(*state, mode as int, byte, x_byte as int, 8int / pixel_width(mode as int))),
{
    let width: i32 = if mode == 0 { 4 } else if mode == 1 { 2 } else { 1 };
    let count: i32 = 8 / width;
    assert(row_painted(old(frame_buffer)@, frame_buffer@, y as int, byte_colours(*state, mode as int, byte, x_byte as int, 0)));
    let mut k: i32 = 0;
    while k < count
        invariant
            0 <= k <= count,
            mode <= 2,
            width == pixel_width(mode as int),
            count == 8i32 / width,
            -0x1000_0000 <= x_byte <= 0x1000_0000,
            y < SCREEN_HEIGHT,
            frame_buffer@.len() == SCREEN_WIDTH * SCREEN_HEIGHT * 3,
            row_painted(old(frame_buffer)@, frame_buffer@, y as int, byte_colours(*state, mode as int, byte, x_byte as int, k as int)),
        decreases count - k,
    {
        let ink: u8 = if mode == 0 {
            if k == 0 {
                ((byte & 0x80) >> 7) | ((byte & 0x08) >> 2) | ((byte & 0x20) >> 3) | ((byte & 0x02) << 2)
            } else {
                ((byte & 0x40) >> 6) | ((byte & 0x04) >> 1) | ((byte & 0x10) >> 2) | ((byte & 0x01) << 3)
            }
        } else if mode == 1 {
            if k == 0 { ((byte & 0x80) >> 7) | ((byte & 0x08) >> 2) }
            else if k == 1 { ((byte & 0x40) >> 6) | ((byte & 0x04) >> 1) }
            else if k == 2 { ((byte & 0x20) >> 5) | (byte & 0x02) }
            else { ((byte & 0x10) >> 4) | ((byte & 0x01) << 1) }
        } else {
            (byte >> ((7 - k) as u8)) & 1
        };
        assert(ink == pixel_ink(mode as int, byte, k as int));
        let ghost before = frame_buffer@;
        draw_pixel_run(state, frame_buffer, ink, x_byte + k * width, width, y);
        proof {
            let f = byte_colours(*state, mode as int, byte, x_byte as int, k as int);
            let g = run((x_byte + k * width) as int, width as int, ink_rgb(*state, ink as int));
            let h = byte_colours(*state, mode as int, byte, x_byte as int, k + 1);
            assert forall|x: int| #[trigger] h(x) == if g(x) is Some { g(x) } else { f(x) } by {
                if x_byte + k * width <= x < x_byte + (k + 1) * width {
                    assert((x - x_byte) / (width as int) == k) by (nonlinear_arith)
                        requires x_byte + k * width <= x < x_byte + (k + 1) * width, width > 0;
                }
                assert(x_byte + (k + 1) * width == x_byte + k * width + width) by (nonlinear_arith);
            }
            lemma_paint_twice(old(frame_buffer)@, before, frame_buffer@, y as int, f, g, h);
        }
        k += 1;
    }
}

/// Mode 0 (160x200, 16 colours): 2 pixels per byte.
pub fn render_byte_mode0(state: &GateArrayState, frame_buffer: &mut [u8], byte: u8, x_byte: i32, y: usize)
    requires
        old(frame_buffer)@.len() == SCREEN_WIDTH * SCREEN_HEIGHT * 3,
        y < SCREEN_HEIGHT,
        -0x1000_0000 <= x_byte <= 0x1000_0000,
    ensures
        row_painted(old(frame_buffer)@, final(frame_buffer)@, y as int, byte_colours(*state, 0, byte, x_byte as int, 2)),
{
    render_byte(state, frame_buffer, 0, byte, x_byte, y);
}

/// Mode 1 (320x200, 4 colours): 4 pixels per byte.
pub fn render_byte_mode1(state: &GateArrayState, frame_buffer: &mut [u8], byte: u8, x_byte: i32, y: usize)
    requires
        old(frame_buffer)@.len() == SCREEN_WIDTH * SCREEN_HEIGHT * 3,
        y < SCREEN_HEIGHT,
        -0x1000_0000 <= x_byte <= 0x1000_0000,
    ensures
        row_painted(old(frame_buffer)@, final(frame_buffer)@, y as int, byte_colours(*state, 1, byte, x_byte as int, 4)),
{
    render_byte(state, frame_buffer, 1, byte, x_byte, y);
    assert(pixel_width(1) == 2);
    assert(8int / 2int == 4) by (nonlinear_arith);
}

/// Mode 2 (640x200, 2 colours): 8 pixels per byte.
pub fn render_byte_mode2(state: &GateArrayState, frame_buffer: &mut [u8], byte: u8, x_byte: i32, y: usize)
    requires
        old(frame_buffer)@.len() == SCREEN_WIDTH * SCREEN_HEIGHT * 3,
        y < SCREEN_HEIGHT,
        -0x1000_0000 <= x_byte <= 0x1000_0000,
    ensures
        row_painted(old(frame_buffer)@, final(frame_buffer)@, y as int, byte_colours(*state, 2, byte, x_byte as int, 8)),
{
    render_byte(state, frame_buffer, 2, byte, x_byte, y);
    assert(pixel_width(2) == 1);
    assert(8int / 1int == 8) by (nonlinear_arith);
}

/// Scanline where VSYNC starts (R7 character rows).
pub open spec fn vsync_line(c: Crtc) -> int {
    c.registers[7] as int * ((c.registers[9] & 0x1F) as int + 1)
}

/// State of the GA chip when scanline `s` (counted from the frame start,
/// modulo the frame) was swept: rendering never uses the current state,
/// which is only the last of the frame and would spread a mid-frame mode
/// or palette change over the whole screen.
pub open spec fn state_at(m: Machine, s: int) -> GateArrayState {
    let idx = s % m.bus.crtc.frame_length();
    if 0 <= idx < m.scanline_states@.len() {
        m.scanline_states@[idx]
    } else {
        GateArrayState { video_mode: m.bus.gate_array.video_mode, palette: m.bus.gate_array.palette }
    }
}

/// Border colour of buffer line `y`: the border can be reprogrammed
/// mid-frame too, so each line takes the colour of its scanline.
pub open spec fn border_rgb(m: Machine, y: int) -> (u8, u8, u8) {
    ink_rgb(state_at(m, y / PIXELS_PER_SCANLINE as int + V_BACK_PORCH_LINES as int + vsync_line(m.bus.crtc)), 16)
}

/// Scanlines displayed: R6 character rows of R9 + 1 scanlines, none when
/// R1 or R6 is 0.
pub open spec fn displayed_scanlines(c: Crtc) -> int {
    if c.registers[1] == 0 || c.registers[6] == 0 {
        0
    } else {
        c.registers[6] as int * ((c.registers[9] & 0x1F) as int + 1)
    }
}

/// A frame has at least one scanline, and R7 counts at most 255 rows of
/// 32 scanlines.
proof fn lemma_frame_bounds(c: Crtc)
    ensures
        1 <= c.frame_length() <= 256 * 32 + 31,
        0 <= vsync_line(c) <= 255 * 32,
{
    let r4 = c.registers[4] as int;
    let r9 = (c.registers[9] & 0x1F) as int;
    let r5 = (c.registers[5] & 0x1F) as int;
    let r7 = c.registers[7] as int;
    let v9 = c.registers[9];
    let v5 = c.registers[5];
    crate::engine::crtc::lemma_five_bits(v9);
    crate::engine::crtc::lemma_five_bits(v5);
    assert(1 <= (r4 + 1) * (r9 + 1) <= 256 * 32) by (nonlinear_arith)
        requires 0 <= r4 <= 255, 0 <= r9 <= 31;
    assert(0 <= r7 * (r9 + 1) <= 255 * 32) by (nonlinear_arith)
        requires 0 <= r7 <= 255, 0 <= r9 <= 31;
}

/// State of the GA chip on scanline `s` (see `state_at`).
fn state_at_of(m: &Machine, s: i64) -> (st: GateArrayState)
    requires
        m.wf(),
        0 <= s <= 0x1_0000,
    ensures
        st == state_at(*m, s as int),
{
    proof {
        lemma_frame_bounds(m.bus.crtc);
    }
    let frame = m.bus.crtc.frame_scanlines() as i64;
    let idx = rem_euclid(s, frame) as usize;
    if idx < m.scanline_states.len() {
        m.scanline_states[idx]
    } else {
        m.bus.gate_array.state()
    }
}

/// Paints the whole of line `y` in `rgb`.
fn fill_row(frame_buffer: &mut [u8], y: usize, rgb: (u8, u8, u8))
    requires
        old(frame_buffer)@.len() == SCREEN_WIDTH * SCREEN_HEIGHT * 3,
        y < SCREEN_HEIGHT,
    ensures
        row_painted(old(frame_buffer)@, final(frame_buffer)@, y as int, run(0, SCREEN_WIDTH as int, rgb)),
{
    let mut x: i32 = 0;
    while x < SCREEN_WIDTH as i32
        invariant
            0 <= x <= SCREEN_WIDTH,
            y < SCREEN_HEIGHT,
            frame_buffer@.len() == SCREEN_WIDTH * SCREEN_HEIGHT * 3,
            row_painted(old(frame_buffer)@, frame_buffer@, y as int, run(0, x as int, rgb)),
        decreases SCREEN_WIDTH - x,
    {
        put_pixel(frame_buffer, x, y, rgb);
        assert forall|i: int| 0 <= i < old(frame_buffer)@.len() implies #[trigger] frame_buffer@[i] == {
            let p = i / 3;
            if p / (SCREEN_WIDTH as int) == y && run(0, x + 1, rgb)(p % (SCREEN_WIDTH as int)) is Some {
                component(run(0, x + 1, rgb)(p % (SCREEN_WIDTH as int))->0, i % 3)
            } else {
                old(frame_buffer)@[i]
            }
        } by {}
        x += 1;
    }
}

/// The colours `g` paints where it paints, those of `f` elsewhere.
pub open spec fn over(f: spec_fn(int) -> Option<(u8, u8, u8)>, g: spec_fn(int) -> Option<(u8, u8, u8)>) -> spec_fn(int) -> Option<(u8, u8, u8)> {
    |x: int| if g(x) is Some { g(x) } else { f(x) }
}

/// Byte `idx` (two per character) of a displayed scanline: as captured
/// when the beam swept it, or the video RAM now past what was captured.
pub open spec fn scan_byte(m: Machine, scanline: int, raster: u32, line_ma: u16, idx: int) -> u8 {
    let captured = if 0 <= scanline < m.scanline_vram@.len() { m.scanline_vram@[scanline]@ } else { Seq::empty() };
    if idx < captured.len() {
        captured[idx]
    } else {
        let ma = line_ma.wrapping_add((idx / 2) as u16) & 0x3FFF;
        let addr = ((ma & 0x3000) << 2) | (((raster as u16) & 0x07) << 11) | ((ma & 0x03FF) << 1);
        m.bus.memory.ram@[addr.wrapping_add((idx % 2) as u16) as int]
    }
}

/// What `byte` paints from `x_byte` in the screen mode of `state` (mode 3
/// paints nothing).
pub open spec fn byte_paint(state: GateArrayState, byte: u8, x_byte: int) -> spec_fn(int) -> Option<(u8, u8, u8)> {
    if state.video_mode == 0 {
        byte_colours(state, 0, byte, x_byte, 2)
    } else if state.video_mode == 1 {
        byte_colours(state, 1, byte, x_byte, 4)
    } else if state.video_mode == 2 {
        byte_colours(state, 2, byte, x_byte, 8)
    } else {
        |x: int| None
    }
}

/// The colours of the first `n` bytes of a displayed scanline, each byte
/// placed from its character column (8 pixels a byte), a later byte over
/// an earlier one.
pub open spec fn row_colours(m: Machine, scanline: int, raster: u32, line_ma: u16, state: GateArrayState, n: int) -> spec_fn(int) -> Option<(u8, u8, u8)>
    decreases n,
{
    if n <= 0 {
        |x: int| None
    } else {
        let c = m.bus.crtc;
        let idx = n - 1;
        let x_byte = column_x(idx / 2, c.registers[2] as int, c.registers[0] as int + 1) + (idx % 2) * 8;
        over(row_colours(m, scanline, raster, line_ma, state, n - 1), byte_paint(state, scan_byte(m, scanline, raster, line_ma, idx), x_byte))
    }
}

/// Paints buffer line `y` with the characters of a displayed scanline:
/// the bytes captured when the beam swept it, or the video RAM now for
/// the positions it had not reached.
fn paint_row(m: &Machine, frame_buffer: &mut [u8], scanline: usize, raster: u32, line_ma: u16, y: usize, state: &GateArrayState)
    requires
        m.wf(),
        old(frame_buffer)@.len() == SCREEN_WIDTH * SCREEN_HEIGHT * 3,
        y < SCREEN_HEIGHT,
    ensures
        row_painted(old(frame_buffer)@, final(frame_buffer)@, y as int,
            row_colours(*m, scanline as int, raster, line_ma, *state, 2 * m.bus.crtc.registers[1] as int)),
{
    let crtc = &m.bus.crtc;
    let r1 = crtc.registers[1] as u32;
    let r2 = crtc.registers[2] as i32;
    let line_chars = crtc.line_chars() as i32;
    let empty: Vec<u8> = Vec::new();
    let captured: &Vec<u8> = if scanline < m.scanline_vram.len() { &m.scanline_vram[scanline] } else { &empty };
    let ghost cap = if scanline < m.scanline_vram@.len() { m.scanline_vram@[scanline as int]@ } else { Seq::<u8>::empty() };
    assert(captured@ == cap);
    let mut x_char: u32 = 0;
    while x_char < r1
        invariant
            x_char <= r1,
            r1 == m.bus.crtc.registers[1] as u32,
            r1 <= 255,
            r2 == m.bus.crtc.registers[2] as i32,
            0 <= r2 <= 255,
            line_chars == m.bus.crtc.registers[0] as i32 + 1,
            1 <= line_chars <= 256,
            captured@ == cap,
            cap == if scanline < m.scanline_vram@.len() { m.scanline_vram@[scanline as int]@ } else { Seq::<u8>::empty() },
            m.wf(),
            y < SCREEN_HEIGHT,
            frame_buffer@.len() == SCREEN_WIDTH * SCREEN_HEIGHT * 3,
            row_painted(old(frame_buffer)@, frame_buffer@, y as int,
                row_colours(*m, scanline as int, raster, line_ma, *state, 2 * x_char as int)),
        decreases r1 - x_char,
    {
        let ma = line_ma.wrapping_add(x_char as u16) & 0x3FFF;
        let r = raster as u16;
        let addr_base = ((ma & 0x3000) << 2) | ((r & 0x07) << 11) | ((ma & 0x03FF) << 1);
        let x_base = char_x(x_char, r2, line_chars);
        let mut byte_off: u16 = 0;
        while byte_off < 2
            invariant
                byte_off <= 2,
                x_char < r1,
                r1 == m.bus.crtc.registers[1] as u32,
                r1 <= 255,
                r2 == m.bus.crtc.registers[2] as i32,
                line_chars == m.bus.crtc.registers[0] as i32 + 1,
                x_base as int == column_x(x_char as int, r2 as int, line_chars as int),
                ma == line_ma.wrapping_add(x_char as u16) & 0x3FFF,
                addr_base == ((ma & 0x3000) << 2) | (((raster as u16) & 0x07) << 11) | ((ma & 0x03FF) << 1),
                captured@ == cap,
                cap == if scanline < m.scanline_vram@.len() { m.scanline_vram@[scanline as int]@ } else { Seq::<u8>::empty() },
                m.wf(),
                y < SCREEN_HEIGHT,
                -0x4000 <= x_base <= 0x4000,
                frame_buffer@.len() == SCREEN_WIDTH * SCREEN_HEIGHT * 3,
                row_painted(old(frame_buffer)@, frame_buffer@, y as int,
                    row_colours(*m, scanline as int, raster, line_ma, *state, 2 * x_char + byte_off)),
            decreases 2 - byte_off,
        {
            let idx = (x_char * 2 + byte_off as u32) as usize;
            let byte = if idx < captured.len() {
                captured[idx]
            } else {
                m.bus.memory.read_video_ram_byte(addr_base.wrapping_add(byte_off))
            };
            proof {
                assert(idx as int / 2 == x_char as int && idx as int % 2 == byte_off as int);
                assert(byte == scan_byte(*m, scanline as int, raster, line_ma, idx as int));
            }
            let x_byte = x_base + byte_off as i32 * 8;
            let ghost before = frame_buffer@;
            let ghost f = row_colours(*m, scanline as int, raster, line_ma, *state, idx as int);
            let ghost g = byte_paint(*state, byte, x_byte as int);
            assert(row_colours(*m, scanline as int, raster, line_ma, *state, idx as int + 1) == over(f, g));
            if state.video_mode == 0 {
                render_byte_mode0(state, frame_buffer, byte, x_byte, y);
            } else if state.video_mode == 1 {
                render_byte_mode1(state, frame_buffer, byte, x_byte, y);
            } else if state.video_mode == 2 {
                render_byte_mode2(state, frame_buffer, byte, x_byte, y);
            }
            proof {
                if state.video_mode > 2 {
                    assert(frame_buffer@ == before);
                    assert(row_painted(before, frame_buffer@, y as int, g)) by {
                        assert forall|i: int| 0 <= i < before.len() implies #[trigger] frame_buffer@[i] == {
                            let p = i / 3;
                            if p / (SCREEN_WIDTH as int) == y && g(p % (SCREEN_WIDTH as int)) is Some {
                                component(g(p % (SCREEN_WIDTH as int))->0, i % 3)
                            } else {
                                before[i]
                            }
                        } by {}
                    }
                }
                assert forall|x: int| #[trigger] over(f, g)(x) == if g(x) is Some { g(x) } else { f(x) } by {}
                lemma_paint_twice(old(frame_buffer)@, before, frame_buffer@, y as int, f, g, over(f, g));
            }
            byte_off += 1;
        }
        x_char += 1;
    }
}

/// Video address of the start of character row `char_y`: R12/R13 plus
/// `char_y` rows of R1 characters.
pub open spec fn row_address(c: Crtc, char_y: int) -> u16 {
    let start = ((c.registers[12] as u16) << 8) | (c.registers[13] as u16);
    start.wrapping_add((char_y * c.registers[1] as int) as u16) & 0x3FFF
}

/// The colours of buffer line `y` from the first `n` displayed scanlines:
/// scanline `s` (row `s / (R9 + 1)`, raster line `s % (R9 + 1)`) covers
/// the two lines from `line_y(s)`, painted with its bytes in the GA state
/// of its own sweep; a later scanline over an earlier one.
pub open spec fn frame_colours(m: Machine, n: int, y: int) -> spec_fn(int) -> Option<(u8, u8, u8)>
    decreases n,
{
    if n <= 0 {
        |x: int| None
    } else {
        let s = n - 1;
        let c = m.bus.crtc;
        let d = (c.registers[9] & 0x1F) as int + 1;
        let ly = line_y(s, vsync_line(c), c.frame_length());
        if ly <= y < ly + PIXELS_PER_SCANLINE {
            over(frame_colours(m, n - 1, y),
                row_colours(m, s, (s % d) as u32, row_address(c, s / d), state_at(m, s), 2 * c.registers[1] as int))
        } else {
            frame_colours(m, n - 1, y)
        }
    }
}

/// Byte `i` of the frame buffer once the first `n` displayed scanlines are
/// painted over the border.
pub open spec fn shown(m: Machine, n: int, i: int) -> u8 {
    let p = i / 3;
    let y = p / (SCREEN_WIDTH as int);
    let f = frame_colours(m, n, y);
    if f(p % (SCREEN_WIDTH as int)) is Some {
        component(f(p % (SCREEN_WIDTH as int))->0, i % 3)
    } else {
        component(border_rgb(m, y), i % 3)
    }
}

/// Renders the frame into `frame_buffer` (RGB, 800x600): first the
/// border, line by line in the colour of its scanline; then each displayed
/// scanline (R6 rows of R9 + 1 scanlines of R1 characters, the MA counter
/// restarting from R12/R13 on each character row), doubled vertically and
/// placed from the sync signals, in the mode and palette of its own
/// scanline (see `frame_colours`). The lines no displayed scanline reaches
/// show the border.
pub fn render(machine: &Machine, frame_buffer: &mut [u8])
    requires
        machine.wf(),
        old(frame_buffer)@.len() == SCREEN_WIDTH * SCREEN_HEIGHT * 3,
    ensures
        final(frame_buffer)@.len() == old(frame_buffer)@.len(),
        forall|i: int| 0 <= i < final(frame_buffer)@.len()
            ==> #[trigger] final(frame_buffer)@[i] == shown(*machine, displayed_scanlines(machine.bus.crtc), i),
{
    let crtc = &machine.bus.crtc;
    let r1 = crtc.registers[1] as u32;
    let r6 = crtc.registers[6] as u32;
    let reg9 = crtc.registers[9];
    let r9 = (reg9 & 0x1F) as u32;
    proof {
        lemma_frame_bounds(machine.bus.crtc);
    }
    let frame = crtc.frame_scanlines() as i32;
    let vsync = crtc.vsync_scanline() as i32;
    assert(r9 <= 31) by (bit_vector) requires r9 == (reg9 & 0x1F) as u32;

    // Border.
    let mut y: usize = 0;
    while y < SCREEN_HEIGHT
        invariant
            y <= SCREEN_HEIGHT,
            machine.wf(),
            vsync as int == vsync_line(machine.bus.crtc),
            0 <= vsync <= 255 * 32,
            frame_buffer@.len() == SCREEN_WIDTH * SCREEN_HEIGHT * 3,
            forall|i: int| 0 <= i < frame_buffer@.len() && (i / 3) / (SCREEN_WIDTH as int) < y
                ==> #[trigger] frame_buffer@[i] == component(border_rgb(*machine, (i / 3) / (SCREEN_WIDTH as int)), i % 3),
        decreases SCREEN_HEIGHT - y,
    {
        let s = (y / 2) as i64 + 22 + vsync as i64;
        let rgb = state_at_of(machine, s).rgb(16);
        assert(rgb == border_rgb(*machine, y as int));
        let ghost before = frame_buffer@;
        fill_row(frame_buffer, y, rgb);
        assert forall|i: int| 0 <= i < frame_buffer@.len() && (i / 3) / (SCREEN_WIDTH as int) < y + 1
            implies #[trigger] frame_buffer@[i] == component(border_rgb(*machine, (i / 3) / (SCREEN_WIDTH as int)), i % 3) by {
            let p = i / 3;
            if p / (SCREEN_WIDTH as int) < y {
                assert(before[i] == component(border_rgb(*machine, p / (SCREEN_WIDTH as int)), i % 3));
            } else {
                assert(0 <= p % (SCREEN_WIDTH as int) < SCREEN_WIDTH as int);
            }
        }
        y += 1;
    }
    assert forall|i: int| 0 <= i < frame_buffer@.len() implies #[trigger] frame_buffer@[i] == shown(*machine, 0, i) by {
        assert(0 <= (i / 3) / (SCREEN_WIDTH as int) < SCREEN_HEIGHT as int);
    }
    if r1 == 0 || r6 == 0 {
        return;
    }
    let start_addr = ((crtc.registers[12] as u16) << 8) | (crtc.registers[13] as u16);
    let mut char_y: u32 = 0;
    while char_y < r6
        invariant
            char_y <= r6,
            r1 == machine.bus.crtc.registers[1],
            r6 == machine.bus.crtc.registers[6],
            r9 == machine.bus.crtc.registers[9] & 0x1F,
            1 <= r1 <= 255,
            r6 <= 255,
            r9 <= 31,
            start_addr == ((machine.bus.crtc.registers[12] as u16) << 8) | (machine.bus.crtc.registers[13] as u16),
            machine.wf(),
            frame as int == machine.bus.crtc.frame_length(),
            1 <= frame <= 256 * 32 + 31,
            vsync as int == vsync_line(machine.bus.crtc),
            0 <= vsync <= 255 * 32,
            frame_buffer@.len() == SCREEN_WIDTH * SCREEN_HEIGHT * 3,
            forall|i: int| 0 <= i < frame_buffer@.len()
                ==> #[trigger] frame_buffer@[i] == shown(*machine, char_y * (r9 + 1), i),
        decreases r6 - char_y,
    {
        assert(char_y * r1 <= 255 * 255) by (nonlinear_arith)
            requires char_y < r6, r6 <= 255, r1 <= 255;
        let line_ma = start_addr.wrapping_add((char_y * r1) as u16) & 0x3FFF;
        assert(line_ma == row_address(machine.bus.crtc, char_y as int));
        let mut raster: u32 = 0;
        while raster <= r9
            invariant
                raster <= r9 + 1,
                char_y < r6,
                r1 == machine.bus.crtc.registers[1],
                r6 == machine.bus.crtc.registers[6],
                r9 == machine.bus.crtc.registers[9] & 0x1F,
                1 <= r1 <= 255,
                r6 <= 255,
                r9 <= 31,
                line_ma == row_address(machine.bus.crtc, char_y as int),
                machine.wf(),
                frame as int == machine.bus.crtc.frame_length(),
                1 <= frame <= 256 * 32 + 31,
                vsync as int == vsync_line(machine.bus.crtc),
                0 <= vsync <= 255 * 32,
                frame_buffer@.len() == SCREEN_WIDTH * SCREEN_HEIGHT * 3,
                forall|i: int| 0 <= i < frame_buffer@.len()
                    ==> #[trigger] frame_buffer@[i] == shown(*machine, char_y * (r9 + 1) + raster, i),
            decreases r9 + 1 - raster,
        {
            assert(char_y * (r9 + 1) + raster <= 255 * 32) by (nonlinear_arith)
                requires char_y < r6, r6 <= 255, raster <= r9, r9 <= 31;
            let scanline = char_y * (r9 + 1) + raster;
            let ghost n = scanline as int;
            proof {
                let d = r9 as int + 1;
                vstd::arithmetic::div_mod::lemma_fundamental_div_mod_converse(n, d, char_y as int, raster as int);
                assert(n == char_y * d + raster) by (nonlinear_arith)
                    requires n == char_y * (r9 + 1) + raster, d == r9 + 1;
            }
            let ly = scanline_y(scanline, vsync, frame);
            assert(-44 <= ly <= 2 * (256 * 32 + 31));
            let ghost before = frame_buffer@;
            let state = state_at_of(machine, scanline as i64);
            let ghost rc = row_colours(*machine, n, raster, line_ma, state, 2 * r1 as int);
            proof {
                let c = machine.bus.crtc;
                let d = (c.registers[9] & 0x1F) as int + 1;
                assert(n % d == raster as int && n / d == char_y as int);
                assert forall|yy: int| #![trigger frame_colours(*machine, n + 1, yy)]
                    ly <= yy < ly + 2 ==> frame_colours(*machine, n + 1, yy) == over(frame_colours(*machine, n, yy), rc) by {}
                assert forall|yy: int| #![trigger frame_colours(*machine, n + 1, yy)]
                    !(ly <= yy < ly + 2) ==> frame_colours(*machine, n + 1, yy) == frame_colours(*machine, n, yy) by {}
            }
            if !(ly + 2 <= 0 || ly >= SCREEN_HEIGHT as i32) {
                let mut dy: i32 = 0;
                while dy < 2
                    invariant
                        0 <= dy <= 2,
                        -44 <= ly <= 2 * (256 * 32 + 31),
                        machine.wf(),
                        state == state_at(*machine, n),
                        n == scanline as int,
                        r1 == machine.bus.crtc.registers[1],
                        rc == row_colours(*machine, n, raster, line_ma, state, 2 * r1 as int),
                        frame_buffer@.len() == SCREEN_WIDTH * SCREEN_HEIGHT * 3,
                        before.len() == frame_buffer@.len(),
                        forall|i: int| 0 <= i < frame_buffer@.len() ==> #[trigger] frame_buffer@[i] == {
                            let p = i / 3;
                            let row = p / (SCREEN_WIDTH as int);
                            if ly <= row < ly + dy && rc(p % (SCREEN_WIDTH as int)) is Some {
                                component(rc(p % (SCREEN_WIDTH as int))->0, i % 3)
                            } else {
                                before[i]
                            }
                        },
                    decreases 2 - dy,
                {
                    let yy = ly + dy;
                    let ghost mid = frame_buffer@;
                    let painted = 0 <= yy && yy < SCREEN_HEIGHT as i32;
                    if painted {
                        paint_row(machine, frame_buffer, scanline as usize, raster, line_ma, yy as usize, &state);
                        assert(scanline as usize as int == n);
                        assert(row_painted(mid, frame_buffer@, yy as int, rc));
                    }
                    assert forall|i: int| 0 <= i < frame_buffer@.len() implies #[trigger] frame_buffer@[i] == {
                        let p = i / 3;
                        let row = p / (SCREEN_WIDTH as int);
                        if ly <= row < ly + dy + 1 && rc(p % (SCREEN_WIDTH as int)) is Some {
                            component(rc(p % (SCREEN_WIDTH as int))->0, i % 3)
                        } else {
                            before[i]
                        }
                    } by {
                        let p = i / 3;
                        let row = p / (SCREEN_WIDTH as int);
                        assert(0 <= row < SCREEN_HEIGHT as int);
                        if painted {
                            assert(frame_buffer@[i] == if row == yy && rc(p % (SCREEN_WIDTH as int)) is Some {
                                component(rc(p % (SCREEN_WIDTH as int))->0, i % 3)
                            } else {
                                mid[i]
                            });
                        } else {
                            assert(frame_buffer@[i] == mid[i]);
                            assert(row != yy);
                        }
                        assert(mid[i] == {
                            if ly <= row < ly + dy && rc(p % (SCREEN_WIDTH as int)) is Some {
                                component(rc(p % (SCREEN_WIDTH as int))->0, i % 3)
                            } else {
                                before[i]
                            }
                        });
                    }
                    dy += 1;
                }
            }
            assert forall|i: int| 0 <= i < frame_buffer@.len() implies #[trigger] frame_buffer@[i] == shown(*machine, n + 1, i) by {
                let p = i / 3;
                let row = p / (SCREEN_WIDTH as int);
                assert(0 <= row < SCREEN_HEIGHT as int);
                assert(before[i] == shown(*machine, n, i));
                if ly <= row < ly + 2 {
                    assert(frame_colours(*machine, n + 1, row) == over(frame_colours(*machine, n, row), rc));
                    assert(!(ly + 2 <= 0 || ly >= SCREEN_HEIGHT as i32));
                } else {
                    assert(frame_colours(*machine, n + 1, row) == frame_colours(*machine, n, row));
                }
            }
            raster += 1;
        }
        proof {
            assert(char_y * (r9 + 1) + (r9 + 1) == (char_y + 1) * (r9 + 1)) by (nonlinear_arith);
        }
        char_y += 1;
    }
    proof {
        assert(displayed_scanlines(machine.bus.crtc) == r6 * (r9 + 1));
    }
}

} // verus!
