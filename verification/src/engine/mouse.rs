//! A relative mouse of this emulator's own design (not a reproduction of a
//! hardware adapter): X/Y deltas accumulated between two reads, and the
//! state of three buttons.

use vstd::prelude::*;

verus! {

/// The mouse seen by the emulated machine.
pub struct Mouse {
    pub enabled: bool,
    /// Horizontal motion accumulated since the X register was last read,
    /// in screen points; saturating, so that a motion faster than the Z80
    /// reads it does not silently flip sign.
    pub dx: i32,
    pub dy: i32,
    /// Bit 0 left button, bit 1 right, bit 2 middle. Current state, not
    /// consumed by reading (unlike the deltas).
    pub buttons: u8,
}

/// `a + b` saturated to the `i32` range.
pub open spec fn saturated(a: i32, b: i32) -> i32 {
    let s = a as int + b as int;
    if s > i32::MAX { i32::MAX } else if s < i32::MIN { i32::MIN } else { s as i32 }
}

/// The register byte of a delta: the delta saturated to a signed byte, in
/// two's complement.
pub open spec fn delta_byte(d: i32) -> u8 {
    let c: int = if d < -128 { -128 } else if d > 127 { 127 } else { d as int };
    (if c < 0 { c + 256 } else { c }) as u8
}

/// Bit `b` of `x`.
pub open spec fn bit(x: u8, b: u8) -> bool {
    (x >> b) & 1 == 1
}

/// `a + b` saturated to the `i32` range.
fn add_saturating(a: i32, b: i32) -> (r: i32)
    ensures
        r == saturated(a, b),
{
    let s = a as i64 + b as i64;
    if s > i32::MAX as i64 {
        i32::MAX
    } else if s < i32::MIN as i64 {
        i32::MIN
    } else {
        s as i32
    }
}

impl Mouse {
    /// A disabled mouse, at rest, no button pressed.
    pub fn new() -> (m: Mouse)
        ensures
            !m.enabled && m.dx == 0 && m.dy == 0 && m.buttons == 0,
    {
        Mouse { enabled: false, dx: 0, dy: 0, buttons: 0 }
    }

    /// Accumulates a relative motion (on each mouse event of the host).
    /// Ignored while disabled, so that a delta never read cannot surprise
    /// on the next enabling.
    pub fn on_motion(&mut self, dx: i32, dy: i32)
        ensures
            *final(self) == if old(self).enabled {
                Mouse { dx: saturated(old(self).dx, dx), dy: saturated(old(self).dy, dy), ..*old(self) }
            } else {
                *old(self)
            },
    {
        if !self.enabled {
            return;
        }
        self.dx = add_saturating(self.dx, dx);
        self.dy = add_saturating(self.dy, dy);
    }

    /// Presses or releases `button` (0 left, 1 right, 2 middle). Other
    /// indices are ignored rather than panicking: an exotic button of the
    /// host need not be filtered by the caller.
    pub fn set_button(&mut self, button: u8, pressed: bool)
        ensures
            final(self).enabled == old(self).enabled,
            final(self).dx == old(self).dx,
            final(self).dy == old(self).dy,
            button > 2 ==> final(self).buttons == old(self).buttons,
            button <= 2 ==> forall|b: u8| b < 8 ==> #[trigger] bit(final(self).buttons, b)
                == if b == button { pressed } else { bit(old(self).buttons, b) },
    {
        if button > 2 {
            return;
        }
        let old_buttons = self.buttons;
        let mask: u8 = 1u8 << button;
        if pressed {
            self.buttons = old_buttons | mask;
        } else {
            self.buttons = old_buttons & !mask;
        }
        let nb = self.buttons;
        assert(forall|b: u8| b < 8 ==> #[trigger] bit(nb, b)
            == if b == button { pressed } else { bit(old_buttons, b) }) by (bit_vector)
            requires
                button <= 2,
                mask == 1u8 << button,
                nb == if pressed { old_buttons | mask } else { old_buttons & !mask };
    }

    /// Reads and consumes the X delta, saturated to a signed byte: the read
    /// clears it, so that the Z80 gets "the motion since last time"
    /// without a separate acknowledge register.
    pub fn read_dx(&mut self) -> (v: u8)
        ensures
            v == delta_byte(old(self).dx),
            *final(self) == (Mouse { dx: 0, ..*old(self) }),
    {
        let d = self.dx;
        let c: i32 = if d < -128 { -128 } else if d > 127 { 127 } else { d };
        self.dx = 0;
        if c < 0 { (c + 256) as u8 } else { c as u8 }
    }

    /// Reads and consumes the Y delta (see `read_dx`).
    pub fn read_dy(&mut self) -> (v: u8)
        ensures
            v == delta_byte(old(self).dy),
            *final(self) == (Mouse { dy: 0, ..*old(self) }),
    {
        let d = self.dy;
        let c: i32 = if d < -128 { -128 } else if d > 127 { 127 } else { d };
        self.dy = 0;
        if c < 0 { (c + 256) as u8 } else { c as u8 }
    }

    /// Reads the current state of the buttons, without consuming it.
    pub fn read_buttons(&self) -> (v: u8)
        ensures
            v == self.buttons,
    {
        self.buttons
    }
}

impl Default for Mouse {
    fn default() -> (m: Mouse)
        ensures
            !m.enabled && m.dx == 0 && m.dy == 0 && m.buttons == 0,
    {
        Mouse::new()
    }
}

/// Reading a delta consumes it: a second read right after the first gives
/// 0, whatever the first gave.
pub proof fn lemma_delta_read_consumes(m: Mouse)
    ensures
        delta_byte((Mouse { dx: 0, ..m }).dx) == 0,
        delta_byte((Mouse { dy: 0, ..m }).dy) == 0,
{
}

/// Motions accumulate exactly while they stay within the `i32` range, and
/// the register byte of a total within a signed byte is that total.
pub proof fn lemma_small_motions_accumulate(a: i32, b: i32)
    requires
        -128 <= a as int + b as int <= 127,
    ensures
        saturated(a, b) == a + b,
        delta_byte(saturated(a, b)) as int == if a + b < 0 { a + b + 256 } else { a + b },
{
}

} // verus!
