//! The AY-3-8910 sound chip (PSG) as the CPC sees it: its registers, which
//! are also the door to the keyboard matrix and the joystick, and the
//! translation of host key events into matrix positions. The sound
//! synthesis driven by the registers is not part of it.

use crate::engine::keys::{Keycode, Scancode};
use vstd::prelude::*;

verus! {

/// About 10 ms at 4 MHz: several keyboard scans of the firmware (300 Hz)
/// fit in it, and a typist never notices it.
pub const DEFER_TICKS: u32 = 40_000;

/// A change of one matrix bit, applied `ticks_left` CPU cycles from now.
/// The firmware never sees two bits change within one keyboard scan (a real
/// keyboard never does that either, and its debouncing misreads it): a
/// SHIFT released or engaged and a key pressed on the same row are spread
/// over two scans.
#[derive(Clone, Copy, Debug, PartialEq, Eq, Structural)]
pub struct DeferredBit {
    pub line: usize,
    pub bit: u8,
    pub pressed: bool,
    pub ticks_left: u32,
}

/// A row of the matrix with one key pressed (its bit at 0) or released.
pub open spec fn with_key(row: u8, bit: u8, pressed: bool) -> u8 {
    if pressed { row & !(1u8 << bit) } else { row | (1u8 << bit) }
}

/// The matrix with the key at (line, bit) pressed or released.
pub open spec fn set_key(m: Seq<u8>, line: int, bit: u8, pressed: bool) -> Seq<u8> {
    m.update(line, with_key(m[line], bit, pressed))
}

/// A position on the matrix.
pub open spec fn on_matrix(line: int, bit: int) -> bool {
    0 <= line < 10 && 0 <= bit < 8
}

/// The pending changes without those for (line, bit).
pub open spec fn cancel(d: Seq<DeferredBit>, line: usize, bit: u8) -> Seq<DeferredBit> {
    d.filter(elsewhere(line, bit))
}

/// A pending change for another position than (line, bit).
pub open spec fn elsewhere(line: usize, bit: u8) -> spec_fn(DeferredBit) -> bool {
    |x: DeferredBit| !(x.line == line && x.bit == bit)
}

/// The pending changes with one more for (line, bit), due in `DEFER_TICKS`.
pub open spec fn defer(d: Seq<DeferredBit>, line: usize, bit: u8, pressed: bool) -> Seq<DeferredBit> {
    d.push(DeferredBit { line, bit, pressed, ticks_left: DEFER_TICKS })
}

/// The matrix after the changes of `d` that are due within `t` cycles, in
/// order.
pub open spec fn apply_due(m: Seq<u8>, d: Seq<DeferredBit>, t: u32) -> Seq<u8>
    decreases d.len(),
{
    if d.len() == 0 {
        m
    } else {
        let m1 = apply_due(m, d.drop_last(), t);
        let x = d.last();
        if x.ticks_left <= t { set_key(m1, x.line as int, x.bit, x.pressed) } else { m1 }
    }
}

/// The changes of `d` still pending after `t` cycles, `t` cycles closer.
pub open spec fn still_pending(d: Seq<DeferredBit>, t: u32) -> Seq<DeferredBit>
    decreases d.len(),
{
    if d.len() == 0 {
        d
    } else {
        let rest = still_pending(d.drop_last(), t);
        let x = d.last();
        if x.ticks_left <= t { rest } else { rest.push(DeferredBit { ticks_left: (x.ticks_left - t) as u32, ..x }) }
    }
}

/// Where a host key lands on the CPC matrix (French AZERTY layout): its
/// position, and whether the CPC SHIFT (2, 5) goes with it. The numeric
/// keypad has no modifier of its own on the host, so the shifted
/// characters it needs are reached by pressing the CPC SHIFT too. The row
/// and bit of a key are its code divided and taken modulo by eight.
pub open spec fn key_position(k: Keycode) -> Option<((usize, u8), bool)> {
    match k {
        Keycode::Up => Some(((0, 0), false)),
        Keycode::Right => Some(((0, 1), false)),
        Keycode::Down => Some(((0, 2), false)),
        Keycode::Kp9 => Some(((0, 3), false)),
        Keycode::Kp6 => Some(((0, 4), false)),
        Keycode::Kp3 => Some(((0, 5), false)),
        Keycode::KpEnter => Some(((0, 6), false)),
        Keycode::KpPeriod => Some(((0, 7), false)),
        Keycode::Left => Some(((1, 0), false)),
        Keycode::LAlt | Keycode::RAlt => Some(((1, 1), false)),
        Keycode::Kp7 => Some(((1, 2), false)),
        Keycode::Kp8 => Some(((1, 3), false)),
        Keycode::Kp5 => Some(((1, 4), false)),
        Keycode::Kp1 => Some(((1, 5), false)),
        Keycode::Kp2 => Some(((1, 6), false)),
        Keycode::Kp0 => Some(((1, 7), false)),
        Keycode::Backspace => Some(((9, 7), false)),
        Keycode::Delete => Some(((2, 0), false)),
        Keycode::Return => Some(((2, 2), false)),
        Keycode::Kp4 => Some(((2, 4), false)),
        Keycode::LShift | Keycode::RShift => Some(((2, 5), false)),
        Keycode::LCtrl | Keycode::RCtrl => Some(((2, 7), false)),
        Keycode::RightParen => Some(((3, 1), false)),
        Keycode::Minus => Some(((3, 0), false)),
        Keycode::Equals | Keycode::Plus => Some(((3, 6), false)),
        Keycode::Colon | Keycode::Slash => Some(((3, 7), false)),
        Keycode::Percent => Some(((3, 4), false)),
        Keycode::KpMultiply => Some(((2, 1), false)),
        Keycode::KpDivide => Some(((3, 7), true)),
        Keycode::KpEquals => Some(((3, 6), false)),
        Keycode::KpPlus => Some(((3, 6), true)),
        Keycode::KpMinus => Some(((3, 0), false)),
        Keycode::P => Some(((3, 3), false)),
        Keycode::Num0 => Some(((4, 0), false)),
        Keycode::Num9 => Some(((4, 1), false)),
        Keycode::O => Some(((4, 2), false)),
        Keycode::I => Some(((4, 3), false)),
        Keycode::L => Some(((4, 4), false)),
        Keycode::K => Some(((4, 5), false)),
        Keycode::Comma => Some(((4, 6), false)),
        Keycode::Semicolon | Keycode::Period => Some(((4, 7), false)),
        Keycode::M => Some(((3, 5), false)),
        Keycode::Num8 => Some(((5, 0), false)),
        Keycode::Num7 => Some(((5, 1), false)),
        Keycode::U => Some(((5, 2), false)),
        Keycode::Y => Some(((5, 3), false)),
        Keycode::H => Some(((5, 4), false)),
        Keycode::J => Some(((5, 5), false)),
        Keycode::N => Some(((5, 6), false)),
        Keycode::Space => Some(((5, 7), false)),
        Keycode::Num6 => Some(((6, 0), false)),
        Keycode::Num5 => Some(((6, 1), false)),
        Keycode::R => Some(((6, 2), false)),
        Keycode::T => Some(((6, 3), false)),
        Keycode::G => Some(((6, 4), false)),
        Keycode::F => Some(((6, 5), false)),
        Keycode::B => Some(((6, 6), false)),
        Keycode::V => Some(((6, 7), false)),
        Keycode::Num4 => Some(((7, 0), false)),
        Keycode::Num3 => Some(((7, 1), false)),
        Keycode::E => Some(((7, 2), false)),
        Keycode::Z => Some(((7, 3), false)),
        Keycode::S => Some(((7, 4), false)),
        Keycode::D => Some(((7, 5), false)),
        Keycode::C => Some(((7, 6), false)),
        Keycode::X => Some(((7, 7), false)),
        Keycode::Num1 => Some(((8, 0), false)),
        Keycode::Num2 => Some(((8, 1), false)),
        Keycode::Escape => Some(((8, 2), false)),
        Keycode::A => Some(((8, 3), false)),
        Keycode::Tab => Some(((8, 4), false)),
        Keycode::Q => Some(((8, 5), false)),
        Keycode::CapsLock => Some(((8, 6), false)),
        Keycode::W => Some(((8, 7), false)),
    }
}

/// The matrix, pending changes and remembered targets after a key event
/// seen by its physical position (see `Psg::set_key_state_scancode`), and
/// whether that position is handled there.
pub open spec fn scancode_effect(m: Seq<u8>, d: Seq<DeferredBit>, dollar: Option<(usize, u8)>,
    less: Option<((usize, u8), bool)>, sc: Scancode, pressed: bool, shift_held: bool)
    -> (Seq<u8>, Seq<DeferredBit>, Option<(usize, u8)>, Option<((usize, u8), bool)>, bool)
{
    match sc {
        Scancode::Apostrophe => (set_key(m, 3, 4, pressed), d, dollar, less, true),
        Scancode::LeftBracket => (set_key(m, 3, 2, pressed), d, dollar, less, true),
        Scancode::Grave => if pressed {
            if shift_held {
                (set_key(m, 2, 5, false), defer(d, 2, 3, true), dollar, less, true)
            } else {
                (set_key(m, 2, 3, true), d, dollar, less, true)
            }
        } else {
            (set_key(set_key(m, 2, 3, false), 2, 5, false), cancel(d, 2, 3), dollar, less, true)
        },
        Scancode::RightBracket => if pressed {
            if dollar is None {
                let bit: (usize, u8) = if shift_held { (2, 1) } else { (2, 6) };
                if shift_held {
                    (set_key(m, 2, 5, false), defer(d, bit.0, bit.1, true), Some(bit), less, true)
                } else {
                    (set_key(m, bit.0 as int, bit.1, true), d, Some(bit), less, true)
                }
            } else {
                (m, d, dollar, less, true)
            }
        } else {
            match dollar {
                Some(bit) => (set_key(set_key(m, bit.0 as int, bit.1, false), 2, 5, false),
                    cancel(d, bit.0, bit.1), None, less, true),
                None => (m, d, dollar, less, true),
            }
        },
        Scancode::NonUsBackslash => if pressed {
            if less is None {
                let bit: (usize, u8) = if shift_held { (2, 3) } else { (2, 1) };
                if shift_held {
                    (set_key(m, bit.0 as int, bit.1, true), d, dollar, Some((bit, false)), true)
                } else {
                    (set_key(m, 2, 5, true), defer(d, bit.0, bit.1, true), dollar, Some((bit, true)), true)
                }
            } else {
                (m, d, dollar, less, true)
            }
        } else {
            match less {
                Some((bit, synthesized)) => {
                    let m1 = set_key(m, bit.0 as int, bit.1, false);
                    (if synthesized { set_key(m1, 2, 5, false) } else { m1 },
                        cancel(d, bit.0, bit.1), dollar, None, true)
                },
                None => (m, d, dollar, less, true),
            }
        },
        Scancode::Num8 => (m, d, dollar, less, false),
    }
}

/// Width of each register: the extra bits are lost on write, and a read
/// never gives them back (code probing for a real PSG writes &FF to a
/// narrow register and checks that it reads back truncated).
pub open spec fn register_mask(reg: int) -> u8 {
    if reg == 1 || reg == 3 || reg == 5 || reg == 13 { 0x0F }
    else if reg == 6 || reg == 8 || reg == 9 || reg == 10 { 0x1F }
    else { 0xFF }
}

/// The PSG and the keyboard matrix of the CPC.
pub struct Psg {
    pub selected_register: u8,
    pub registers: [u8; 16],
    /// Ten rows of eight keys; a bit at 0 is a key down.
    pub keyboard_matrix: [u8; 10],
    pub selected_keyboard_line: u8,
    /// Joystick buttons (Up, Down, Left, Right, Fire 1 to 4): 1 pressed.
    pub controller_state: [u8; 8],
    /// Set by every write to R13, which restarts the envelope generator of
    /// the sound synthesis (even with the value already there), until the
    /// synthesis collects it.
    pub envelope_restart: bool,
    /// CPC position chosen when the host "$ / * " key went down, which
    /// depends on the host SHIFT at that moment; its release aims at the
    /// same position even if the host SHIFT changed in between (releasing
    /// SHIFT first is an ordinary way to type, and would otherwise leave a
    /// key stuck down).
    pub dollar_asterisk_target: Option<(usize, u8)>,
    /// CPC position aimed at by the host "< / >" key, and whether its
    /// release must also release the CPC SHIFT (only when this key engaged
    /// it itself).
    pub less_greater_target: Option<((usize, u8), bool)>,
    /// Matrix changes waiting a few CPU cycles (see `DeferredBit`).
    pub deferred: Vec<DeferredBit>,
}

/// Mask of the register-width constant.
fn mask_of(reg: usize) -> (m: u8)
    requires
        reg < 16,
    ensures
        m == register_mask(reg as int),
{
    if reg == 1 || reg == 3 || reg == 5 || reg == 13 { 0x0F }
    else if reg == 6 || reg == 8 || reg == 9 || reg == 10 { 0x1F }
    else { 0xFF }
}

/// Whether some position of `v` is on row `line`.
pub open spec fn on_row(v: Seq<(usize, u8)>, line: usize) -> bool {
    exists|i: int| 0 <= i < v.len() && #[trigger] v[i].0 == line
}

/// Matrix and pending changes after releasing the positions of `v` in
/// order, each dropping its pending change.
pub open spec fn release_all(m: Seq<u8>, d: Seq<DeferredBit>, v: Seq<(usize, u8)>) -> (Seq<u8>, Seq<DeferredBit>)
    decreases v.len(),
{
    if v.len() == 0 {
        (m, d)
    } else {
        let (m1, d1) = release_all(m, d, v.drop_last());
        let (l, b) = v.last();
        (set_key(m1, l as int, b, false), cancel(d1, l, b))
    }
}

/// Matrix and pending changes after pressing the positions of `v` in
/// order: at once, or deferred on a row where `released` lets a key go in
/// the same call.
pub open spec fn press_all(m: Seq<u8>, d: Seq<DeferredBit>, v: Seq<(usize, u8)>, released: Seq<(usize, u8)>) -> (Seq<u8>, Seq<DeferredBit>)
    decreases v.len(),
{
    if v.len() == 0 {
        (m, d)
    } else {
        let (m1, d1) = press_all(m, d, v.drop_last(), released);
        let (l, b) = v.last();
        let d2 = cancel(d1, l, b);
        if on_row(released, l) { (m1, defer(d2, l, b, true)) } else { (set_key(m1, l as int, b, true), d2) }
    }
}

/// Every position of `v` is on the matrix.
pub open spec fn all_on_matrix(v: Seq<(usize, u8)>) -> bool {
    forall|i: int| 0 <= i < v.len() ==> #[trigger] on_matrix(v[i].0 as int, v[i].1 as int)
}

impl Psg {
    /// Every pending change is on the matrix.
    pub open spec fn wf(&self) -> bool {
        &&& forall|i: int| 0 <= i < self.deferred@.len()
            ==> #[trigger] on_matrix(self.deferred@[i].line as int, self.deferred@[i].bit as int)
        &&& self.dollar_asterisk_target matches Some(b) ==> on_matrix(b.0 as int, b.1 as int)
        &&& self.less_greater_target matches Some((b, _)) ==> on_matrix(b.0 as int, b.1 as int)
    }

    /// A PSG with cleared registers, every key up, no button pressed.
    /// The PSG at power-on: every register at 0, no key down, nothing
    /// pending.
    pub open spec fn powered_on(self) -> bool {
        &&& self.selected_register == 0
        &&& forall|i: int| 0 <= i < 16 ==> #[trigger] self.registers[i] == 0
        &&& forall|i: int| 0 <= i < 10 ==> #[trigger] self.keyboard_matrix[i] == 0xFF
        &&& self.selected_keyboard_line == 0
        &&& forall|i: int| 0 <= i < 8 ==> #[trigger] self.controller_state[i] == 0
        &&& !self.envelope_restart
        &&& self.dollar_asterisk_target is None
        &&& self.less_greater_target is None
        &&& self.deferred@.len() == 0
    }

    pub fn new() -> (p: Psg)
        ensures
            p.powered_on(),
            p.wf(),
            p.selected_register == 0,
            forall|i: int| 0 <= i < 16 ==> p.registers[i] == 0,
            forall|i: int| 0 <= i < 10 ==> p.keyboard_matrix[i] == 0xFF,
            p.selected_keyboard_line == 0,
            forall|i: int| 0 <= i < 8 ==> p.controller_state[i] == 0,
            !p.envelope_restart,
            p.dollar_asterisk_target is None,
            p.less_greater_target is None,
            p.deferred@.len() == 0,
    {
        Psg {
            selected_register: 0,
            registers: [0; 16],
            keyboard_matrix: [0xFF; 10],
            selected_keyboard_line: 0,
            controller_state: [0; 8],
            envelope_restart: false,
            dollar_asterisk_target: None,
            less_greater_target: None,
            deferred: Vec::new(),
        }
    }

    /// Presses or releases the key at (line, bit) at once, without going
    /// through a host key: the on-screen keyboard presses a known position
    /// exactly as the physical key would.
    pub fn set_matrix_bit(&mut self, line: usize, bit: u8, pressed: bool)
        requires
            on_matrix(line as int, bit as int),
        ensures
            final(self).keyboard_matrix@ == set_key(old(self).keyboard_matrix@, line as int, bit, pressed),
            *final(self) == (Psg { keyboard_matrix: final(self).keyboard_matrix, ..*old(self) }),
    {
        self.apply_bit(line, bit, pressed);
    }

    /// Schedules a change of (line, bit) `DEFER_TICKS` cycles from now.
    fn set_bit_deferred(&mut self, line: usize, bit: u8, pressed: bool)
        requires
            old(self).wf(),
            on_matrix(line as int, bit as int),
        ensures
            final(self).wf(),
            final(self).deferred@ == defer(old(self).deferred@, line, bit, pressed),
            *final(self) == (Psg { deferred: final(self).deferred, ..*old(self) }),
    {
        self.deferred.push(DeferredBit { line, bit, pressed, ticks_left: DEFER_TICKS });
        proof {
            assert forall|i: int| 0 <= i < self.deferred@.len()
                implies #[trigger] on_matrix(self.deferred@[i].line as int, self.deferred@[i].bit as int) by {
                if i < old(self).deferred@.len() {
                    assert(self.deferred@[i] == old(self).deferred@[i]);
                }
            }
        }
    }

    /// Drops a pending change of (line, bit), if any: a key released
    /// before its press took effect must not come down afterwards.
    fn cancel_deferred(&mut self, line: usize, bit: u8)
        requires
            old(self).wf(),
        ensures
            final(self).wf(),
            final(self).deferred@ == cancel(old(self).deferred@, line, bit),
            *final(self) == (Psg { deferred: final(self).deferred, ..*old(self) }),
    {
        let ghost d = self.deferred@;
        let mut kept: Vec<DeferredBit> = Vec::new();
        let mut i: usize = 0;
        while i < self.deferred.len()
            invariant
                i <= self.deferred@.len(),
                self.deferred@ == d,
                old(self).deferred@ == d,
                old(self).wf(),
                kept@ == d.take(i as int).filter(elsewhere(line, bit)),
                forall|j: int| 0 <= j < kept@.len() ==> #[trigger] on_matrix(kept@[j].line as int, kept@[j].bit as int),
            decreases self.deferred@.len() - i,
        {
            let x = self.deferred[i];
            let ghost before = kept@;
            proof {
                assert(on_matrix(d[i as int].line as int, d[i as int].bit as int));
            }
            if !(x.line == line && x.bit == bit) {
                kept.push(x);
            }
            assert(kept@ == d.take(i + 1).filter(elsewhere(line, bit))) by {
                reveal(Seq::filter);
                assert(d.take(i + 1).drop_last() =~= d.take(i as int));
                assert(d.take(i + 1).last() == x);
                assert(elsewhere(line, bit)(x) == !(x.line == line && x.bit == bit));
            }
            i += 1;
        }
        proof {
            assert(d.take(i as int) =~= d);
        }
        self.deferred = kept;
    }

    /// Presses or releases a joystick button (0 Up, 1 Down, 2 Left,
    /// 3 Right, 4 to 7 Fire): row 9 of the matrix holds joystick A, bit b
    /// for button b (buttons 0 to 6), 0 when pressed.
    pub fn set_controller_button(&mut self, button_index: usize, pressed: bool)
        ensures
            button_index >= 8 ==> *final(self) == *old(self),
            button_index < 8 ==> {
                &&& final(self).controller_state@ == old(self).controller_state@.update(button_index as int, if pressed { 1u8 } else { 0u8 })
                &&& final(self).keyboard_matrix@ == if button_index < 7 {
                    old(self).keyboard_matrix@.update(9, if pressed {
                        old(self).keyboard_matrix[9] & !(1u8 << button_index as u8)
                    } else {
                        old(self).keyboard_matrix[9] | (1u8 << button_index as u8)
                    })
                } else {
                    old(self).keyboard_matrix@
                }
                &&& final(self).registers == old(self).registers
                &&& final(self).selected_register == old(self).selected_register
                &&& final(self).selected_keyboard_line == old(self).selected_keyboard_line
                &&& final(self).envelope_restart == old(self).envelope_restart
            },
    {
        if button_index < 8 {
            self.controller_state[button_index] = if pressed { 1 } else { 0 };
            if button_index < 7 {
                let b = button_index as u8;
                if pressed {
                    self.keyboard_matrix[9] = self.keyboard_matrix[9] & !(1u8 << b);
                } else {
                    self.keyboard_matrix[9] = self.keyboard_matrix[9] | (1u8 << b);
                }
            }
        }
    }

    /// Presses or releases a key of the matrix (row, bit).
    pub fn apply_bit(&mut self, line: usize, bit: u8, pressed: bool)
        requires
            line < 10,
            bit < 8,
        ensures
            final(self).keyboard_matrix@ == old(self).keyboard_matrix@.update(line as int, if pressed {
                old(self).keyboard_matrix[line as int] & !(1u8 << bit)
            } else {
                old(self).keyboard_matrix[line as int] | (1u8 << bit)
            }),
            *final(self) == (Psg { keyboard_matrix: final(self).keyboard_matrix, ..*old(self) }),
    {
        if pressed {
            self.keyboard_matrix[line] = self.keyboard_matrix[line] & !(1u8 << bit);
        } else {
            self.keyboard_matrix[line] = self.keyboard_matrix[line] | (1u8 << bit);
        }
    }

    /// Writes the selected register (masked to its width); a write to R13
    /// restarts the envelope.
    pub fn write_current_register(&mut self, val: u8)
        ensures
            old(self).selected_register < 16 ==> *final(self) == (Psg {
                registers: final(self).registers,
                envelope_restart: old(self).envelope_restart || old(self).selected_register == 13,
                ..*old(self)
            }) && final(self).registers@ == old(self).registers@.update(
                old(self).selected_register as int, val & register_mask(old(self).selected_register as int)),
            old(self).selected_register >= 16 ==> *final(self) == *old(self),
    {
        let reg = self.selected_register as usize;
        if reg < 16 {
            self.registers[reg] = val & mask_of(reg);
            if reg == 13 {
                self.envelope_restart = true;
            }
        }
    }

    /// What `read_current_register` gives.
    pub open spec fn read_current_register_value(&self) -> u8 {
        if self.selected_register == 14 {
            if self.selected_keyboard_line < 10 { self.keyboard_matrix[self.selected_keyboard_line as int] } else { 0xFF }
        } else if self.selected_register < 16 {
            self.registers[self.selected_register as int]
        } else {
            0xFF
        }
    }

    /// Reads the selected register; R14 (I/O port A) reads the selected
    /// keyboard row (all keys up past the tenth row).
    pub fn read_current_register(&self) -> (v: u8)
        ensures
            v == self.read_current_register_value(),
    {
        let reg = self.selected_register as usize;
        if reg == 14 {
            let line = self.selected_keyboard_line as usize;
            if line < 10 { self.keyboard_matrix[line] } else { 0xFF }
        } else if reg < 16 {
            self.registers[reg]
        } else {
            0xFF
        }
    }

    /// Lets `cpu_ticks` CPU cycles pass for the pending matrix changes:
    /// those due are applied in order, the others come closer. (The sound
    /// synthesis is advanced by its own part.)
    pub fn tick(&mut self, cpu_ticks: u32)
        requires
            old(self).wf(),
        ensures
            final(self).wf(),
            final(self).keyboard_matrix@ == apply_due(old(self).keyboard_matrix@, old(self).deferred@, cpu_ticks),
            final(self).deferred@ == still_pending(old(self).deferred@, cpu_ticks),
            *final(self) == (Psg { keyboard_matrix: final(self).keyboard_matrix, deferred: final(self).deferred, ..*old(self) }),
    {
        let ghost d = self.deferred@;
        let mut pending: Vec<DeferredBit> = Vec::new();
        let mut i: usize = 0;
        while i < self.deferred.len()
            invariant
                i <= d.len(),
                self.deferred@ == d,
                old(self).deferred@ == d,
                old(self).wf(),
                self.keyboard_matrix@ == apply_due(old(self).keyboard_matrix@, d.take(i as int), cpu_ticks),
                pending@ == still_pending(d.take(i as int), cpu_ticks),
                forall|j: int| 0 <= j < pending@.len() ==> #[trigger] on_matrix(pending@[j].line as int, pending@[j].bit as int),
                *self == (Psg { keyboard_matrix: self.keyboard_matrix, ..*old(self) }),
            decreases d.len() - i,
        {
            let x = self.deferred[i];
            proof {
                assert(d.take(i + 1).drop_last() =~= d.take(i as int));
                assert(d.take(i + 1).last() == x);
                assert(on_matrix(d[i as int].line as int, d[i as int].bit as int));
            }
            if x.ticks_left <= cpu_ticks {
                self.apply_bit(x.line, x.bit, x.pressed);
            } else {
                pending.push(DeferredBit { ticks_left: x.ticks_left - cpu_ticks, ..x });
            }
            i += 1;
        }
        proof {
            assert(d.take(i as int) =~= d);
        }
        self.deferred = pending;
    }

    /// Position of a host key on the CPC matrix (see `key_position`).
    pub fn key_position_of(k: Keycode) -> (r: Option<((usize, u8), bool)>)
        ensures
            r == key_position(k),
            r matches Some((pos, _)) ==> on_matrix(pos.0 as int, pos.1 as int),
    {
        match k {
            Keycode::Up => Some(((0, 0), false)),
            Keycode::Right => Some(((0, 1), false)),
            Keycode::Down => Some(((0, 2), false)),
            Keycode::Kp9 => Some(((0, 3), false)),
            Keycode::Kp6 => Some(((0, 4), false)),
            Keycode::Kp3 => Some(((0, 5), false)),
            Keycode::KpEnter => Some(((0, 6), false)),
            Keycode::KpPeriod => Some(((0, 7), false)),
            Keycode::Left => Some(((1, 0), false)),
            Keycode::LAlt | Keycode::RAlt => Some(((1, 1), false)),
            Keycode::Kp7 => Some(((1, 2), false)),
            Keycode::Kp8 => Some(((1, 3), false)),
            Keycode::Kp5 => Some(((1, 4), false)),
            Keycode::Kp1 => Some(((1, 5), false)),
            Keycode::Kp2 => Some(((1, 6), false)),
            Keycode::Kp0 => Some(((1, 7), false)),
            Keycode::Backspace => Some(((9, 7), false)),
            Keycode::Delete => Some(((2, 0), false)),
            Keycode::Return => Some(((2, 2), false)),
            Keycode::Kp4 => Some(((2, 4), false)),
            Keycode::LShift | Keycode::RShift => Some(((2, 5), false)),
            Keycode::LCtrl | Keycode::RCtrl => Some(((2, 7), false)),
            Keycode::RightParen => Some(((3, 1), false)),
            Keycode::Minus => Some(((3, 0), false)),
            Keycode::Equals | Keycode::Plus => Some(((3, 6), false)),
            Keycode::Colon | Keycode::Slash => Some(((3, 7), false)),
            Keycode::Percent => Some(((3, 4), false)),
            Keycode::KpMultiply => Some(((2, 1), false)),
            Keycode::KpDivide => Some(((3, 7), true)),
            Keycode::KpEquals => Some(((3, 6), false)),
            Keycode::KpPlus => Some(((3, 6), true)),
            Keycode::KpMinus => Some(((3, 0), false)),
            Keycode::P => Some(((3, 3), false)),
            Keycode::Num0 => Some(((4, 0), false)),
            Keycode::Num9 => Some(((4, 1), false)),
            Keycode::O => Some(((4, 2), false)),
            Keycode::I => Some(((4, 3), false)),
            Keycode::L => Some(((4, 4), false)),
            Keycode::K => Some(((4, 5), false)),
            Keycode::Comma => Some(((4, 6), false)),
            Keycode::Semicolon | Keycode::Period => Some(((4, 7), false)),
            Keycode::M => Some(((3, 5), false)),
            Keycode::Num8 => Some(((5, 0), false)),
            Keycode::Num7 => Some(((5, 1), false)),
            Keycode::U => Some(((5, 2), false)),
            Keycode::Y => Some(((5, 3), false)),
            Keycode::H => Some(((5, 4), false)),
            Keycode::J => Some(((5, 5), false)),
            Keycode::N => Some(((5, 6), false)),
            Keycode::Space => Some(((5, 7), false)),
            Keycode::Num6 => Some(((6, 0), false)),
            Keycode::Num5 => Some(((6, 1), false)),
            Keycode::R => Some(((6, 2), false)),
            Keycode::T => Some(((6, 3), false)),
            Keycode::G => Some(((6, 4), false)),
            Keycode::F => Some(((6, 5), false)),
            Keycode::B => Some(((6, 6), false)),
            Keycode::V => Some(((6, 7), false)),
            Keycode::Num4 => Some(((7, 0), false)),
            Keycode::Num3 => Some(((7, 1), false)),
            Keycode::E => Some(((7, 2), false)),
            Keycode::Z => Some(((7, 3), false)),
            Keycode::S => Some(((7, 4), false)),
            Keycode::D => Some(((7, 5), false)),
            Keycode::C => Some(((7, 6), false)),
            Keycode::X => Some(((7, 7), false)),
            Keycode::Num1 => Some(((8, 0), false)),
            Keycode::Num2 => Some(((8, 1), false)),
            Keycode::Escape => Some(((8, 2), false)),
            Keycode::A => Some(((8, 3), false)),
            Keycode::Tab => Some(((8, 4), false)),
            Keycode::Q => Some(((8, 5), false)),
            Keycode::CapsLock => Some(((8, 6), false)),
            Keycode::W => Some(((8, 7), false)),
        }
    }

    /// Presses or releases the CPC key of a host key (see `key_position`);
    /// a host key with no CPC position changes nothing.
    pub fn set_key_state(&mut self, keycode: Keycode, pressed: bool)
        ensures
            final(self).keyboard_matrix@ == match key_position(keycode) {
                Some((pos, shift)) => set_key(
                    if shift { set_key(old(self).keyboard_matrix@, 2, 5, pressed) } else { old(self).keyboard_matrix@ },
                    pos.0 as int, pos.1, pressed),
                None => old(self).keyboard_matrix@,
            },
            *final(self) == (Psg { keyboard_matrix: final(self).keyboard_matrix, ..*old(self) }),
    {
        if let Some((pos, shift)) = Self::key_position_of(keycode) {
            if shift {
                self.apply_bit(2, 5, pressed);
            }
            self.apply_bit(pos.0, pos.1, pressed);
        }
    }

    /// Host keys whose character cannot be trusted (a dead key, characters
    /// outside the host table: "ù", "# / @", "$ / * ", "< / >"), handled by
    /// physical position instead; `shift_held` is the host SHIFT at the
    /// event. The host SHIFT never leaks as such to the CPC SHIFT: where the
    /// two characters of a host key land on different CPC keys, the CPC
    /// SHIFT is released first and the position comes a scan later; where
    /// the CPC needs its SHIFT that the host did not give ("<"), it is
    /// engaged first and the position comes a scan later. Returns whether
    /// the key is handled here.
    pub fn set_key_state_scancode(&mut self, scancode: Scancode, pressed: bool, shift_held: bool) -> (handled: bool)
        requires
            old(self).wf(),
        ensures
            final(self).wf(),
            ({
                let (m, d, dollar, less, h) = scancode_effect(old(self).keyboard_matrix@, old(self).deferred@,
                    old(self).dollar_asterisk_target, old(self).less_greater_target, scancode, pressed, shift_held);
                &&& final(self).keyboard_matrix@ == m
                &&& final(self).deferred@ == d
                &&& final(self).dollar_asterisk_target == dollar
                &&& final(self).less_greater_target == less
                &&& handled == h
            }),
            *final(self) == (Psg {
                keyboard_matrix: final(self).keyboard_matrix,
                deferred: final(self).deferred,
                dollar_asterisk_target: final(self).dollar_asterisk_target,
                less_greater_target: final(self).less_greater_target,
                ..*old(self)
            }),
    {
        match scancode {
            Scancode::Apostrophe => {
                self.apply_bit(3, 4, pressed);
                true
            }
            Scancode::LeftBracket => {
                self.apply_bit(3, 2, pressed);
                true
            }
            Scancode::Grave => {
                if pressed {
                    if shift_held {
                        self.apply_bit(2, 5, false);
                        self.set_bit_deferred(2, 3, true);
                    } else {
                        self.apply_bit(2, 3, true);
                    }
                } else {
                    self.cancel_deferred(2, 3);
                    self.apply_bit(2, 3, false);
                    self.apply_bit(2, 5, false);
                }
                true
            }
            Scancode::RightBracket => {
                if pressed {
                    if self.dollar_asterisk_target.is_none() {
                        let bit: (usize, u8) = if shift_held { (2, 1) } else { (2, 6) };
                        self.dollar_asterisk_target = Some(bit);
                        if shift_held {
                            self.apply_bit(2, 5, false);
                            self.set_bit_deferred(bit.0, bit.1, true);
                        } else {
                            self.apply_bit(bit.0, bit.1, true);
                        }
                    }
                } else {
                    match self.dollar_asterisk_target {
                        Some(bit) => {
                            self.dollar_asterisk_target = None;
                            self.cancel_deferred(bit.0, bit.1);
                            self.apply_bit(bit.0, bit.1, false);
                            self.apply_bit(2, 5, false);
                        }
                        None => {}
                    }
                }
                true
            }
            Scancode::NonUsBackslash => {
                if pressed {
                    if self.less_greater_target.is_none() {
                        let bit: (usize, u8) = if shift_held { (2, 3) } else { (2, 1) };
                        self.less_greater_target = Some((bit, !shift_held));
                        if shift_held {
                            self.apply_bit(bit.0, bit.1, true);
                        } else {
                            self.apply_bit(2, 5, true);
                            self.set_bit_deferred(bit.0, bit.1, true);
                        }
                    }
                } else {
                    match self.less_greater_target {
                        Some((bit, synthesized_shift)) => {
                            self.less_greater_target = None;
                            self.cancel_deferred(bit.0, bit.1);
                            self.apply_bit(bit.0, bit.1, false);
                            if synthesized_shift {
                                self.apply_bit(2, 5, false);
                            }
                        }
                        None => {}
                    }
                }
                true
            }
            Scancode::Num8 => false,
        }
    }

    /// Releases the positions of `released` and presses those of `pressed`
    /// in one go, as the on-screen keyboard does when it lets a SHIFT latch
    /// go and presses another key in the same frame. A press on a row where
    /// a key is released in the same call is deferred (see `DeferredBit`);
    /// the others apply at once.
    pub fn apply_matrix_diff(&mut self, released: &[(usize, u8)], pressed: &[(usize, u8)])
        requires
            old(self).wf(),
            all_on_matrix(released@),
            all_on_matrix(pressed@),
        ensures
            final(self).wf(),
            ({
                let (m1, d1) = release_all(old(self).keyboard_matrix@, old(self).deferred@, released@);
                let (m2, d2) = press_all(m1, d1, pressed@, released@);
                &&& final(self).keyboard_matrix@ == m2
                &&& final(self).deferred@ == d2
            }),
            *final(self) == (Psg { keyboard_matrix: final(self).keyboard_matrix, deferred: final(self).deferred, ..*old(self) }),
    {
        let mut i: usize = 0;
        while i < released.len()
            invariant
                i <= released@.len(),
                self.wf(),
                all_on_matrix(released@),
                ({
                    let (m, d) = release_all(old(self).keyboard_matrix@, old(self).deferred@, released@.take(i as int));
                    self.keyboard_matrix@ == m && self.deferred@ == d
                }),
                *self == (Psg { keyboard_matrix: self.keyboard_matrix, deferred: self.deferred, ..*old(self) }),
            decreases released@.len() - i,
        {
            let (line, bit) = released[i];
            proof {
                assert(released@.take(i + 1).drop_last() =~= released@.take(i as int));
                assert(on_matrix(released@[i as int].0 as int, released@[i as int].1 as int));
            }
            self.cancel_deferred(line, bit);
            self.apply_bit(line, bit, false);
            i += 1;
        }
        proof {
            assert(released@.take(i as int) =~= released@);
        }
        let ghost m1 = self.keyboard_matrix@;
        let ghost d1 = self.deferred@;
        let mut j: usize = 0;
        while j < pressed.len()
            invariant
                j <= pressed@.len(),
                self.wf(),
                all_on_matrix(pressed@),
                ({
                    let (m, d) = press_all(m1, d1, pressed@.take(j as int), released@);
                    self.keyboard_matrix@ == m && self.deferred@ == d
                }),
                *self == (Psg { keyboard_matrix: self.keyboard_matrix, deferred: self.deferred, ..*old(self) }),
            decreases pressed@.len() - j,
        {
            let (line, bit) = pressed[j];
            proof {
                assert(pressed@.take(j + 1).drop_last() =~= pressed@.take(j as int));
                assert(on_matrix(pressed@[j as int].0 as int, pressed@[j as int].1 as int));
            }
            self.cancel_deferred(line, bit);
            if Self::row_listed(released, line) {
                self.set_bit_deferred(line, bit, true);
            } else {
                self.apply_bit(line, bit, true);
            }
            j += 1;
        }
        proof {
            assert(pressed@.take(j as int) =~= pressed@);
        }
    }

    /// Whether some position of `v` is on row `line`.
    fn row_listed(v: &[(usize, u8)], line: usize) -> (r: bool)
        ensures
            r == on_row(v@, line),
    {
        let mut i: usize = 0;
        while i < v.len()
            invariant
                i <= v@.len(),
                forall|k: int| 0 <= k < i ==> v@[k].0 != line,
            decreases v@.len() - i,
        {
            if v[i].0 == line {
                return true;
            }
            i += 1;
        }
        false
    }

    /// Hands out (and clears) the envelope restart request.
    pub fn take_envelope_restart(&mut self) -> (r: bool)
        ensures
            r == old(self).envelope_restart,
            *final(self) == (Psg { envelope_restart: false, ..*old(self) }),
    {
        let r = self.envelope_restart;
        self.envelope_restart = false;
        r
    }
}


/// The matrix `m` after the host key `k` went down (`pressed`) or up, as
/// `Psg::set_key_state` leaves it.
pub open spec fn keyed(m: Seq<u8>, k: Keycode, pressed: bool) -> Seq<u8> {
    match key_position(k) {
        Some((pos, shift)) => set_key(
            if shift { set_key(m, 2, 5, pressed) } else { m },
            pos.0 as int, pos.1, pressed),
        None => m,
    }
}

/// The key at (line, bit) is up in `m`.
pub open spec fn key_up(m: Seq<u8>, line: int, bit: u8) -> bool {
    m[line] & (1u8 << bit) != 0
}

/// The CPC keys of host key `k` (with the SHIFT it brings) are up.
pub open spec fn host_key_up(m: Seq<u8>, k: Keycode) -> bool {
    match key_position(k) {
        Some((pos, shift)) => key_up(m, pos.0 as int, pos.1) && (shift ==> key_up(m, 2, 5)),
        None => true,
    }
}

/// Down then up on one row gives the row back, when the keys were up.
proof fn lemma_row_down_up(r: u8, b1: u8, b2: u8)
    requires
        b1 < 8,
        b2 < 8,
        r & (1u8 << b1) != 0,
        r & (1u8 << b2) != 0,
    ensures
        with_key(with_key(r, b1, false), b1, false) == r,
        with_key(with_key(r, b1, true), b1, false) == r,
        with_key(with_key(with_key(with_key(r, b1, true), b2, true), b1, false), b2, false) == r,
{
    assert((r & !(1u8 << b1)) | (1u8 << b1) == r) by (bit_vector)
        requires b1 < 8, r & (1u8 << b1) != 0;
    assert(r | (1u8 << b1) == r) by (bit_vector)
        requires b1 < 8, r & (1u8 << b1) != 0;
    assert(((((r & !(1u8 << b1)) & !(1u8 << b2)) | (1u8 << b1)) | (1u8 << b2)) == r) by (bit_vector)
        requires b1 < 8, b2 < 8, r & (1u8 << b1) != 0, r & (1u8 << b2) != 0;
}

/// A key that goes down and comes up again leaves no trace: from a
/// matrix where its CPC keys (and the SHIFT it brings) are up, pressing
/// then releasing the host key `k` gives the same matrix back.
pub proof fn lemma_press_then_release(m: Seq<u8>, k: Keycode)
    requires
        m.len() == 10,
        host_key_up(m, k),
    ensures
        keyed(keyed(m, k, true), k, false) == m,
{
    match key_position(k) {
        Some((pos, shift)) => {
            let (line, bit) = pos;
            assert(line < 10 && bit < 8);
            if shift {
                if line == 2 {
                    lemma_row_down_up(m[2], 5, bit);
                    assert(bit != 5);
                } else {
                    lemma_row_down_up(m[2], 5, 5);
                    lemma_row_down_up(m[line as int], bit, bit);
                }
            } else {
                lemma_row_down_up(m[line as int], bit, bit);
            }
            assert(keyed(keyed(m, k, true), k, false) =~= m);
        },
        None => {},
    }
}

} // verus!
