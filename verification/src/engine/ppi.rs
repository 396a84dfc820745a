//! The 8255 PPI of the engine: like the first model's, plus the tape
//! signal read live on port B, the joystick selection bit, and the reset
//! of the outputs when the mode is set.

use vstd::prelude::*;
use crate::ppi::psg_synced;
use crate::psg::Psg;

verus! {

/// The 8255 programmable peripheral interface.
pub struct Ppi {
    /// Data exchanged with the PSG.
    pub port_a: u8,
    /// System status input (VSYNC, joystick selection, ...).
    pub port_b_input: u8,
    /// PSG control and keyboard row selection.
    pub port_c: u8,
    /// Direction of the ports.
    pub control_register: u8,
}

impl Ppi {
    /// A PPI in the CPC's default mode.
    /// The PPI at power-on: outputs at 0, port B reading the maker's
    /// straps with VSYNC low, the control word of the firmware's mode.
    pub open spec fn powered_on(self) -> bool {
        self == (Ppi { port_a: 0, port_b_input: 0x1E, port_c: 0, control_register: 0x92 })
    }

    pub fn new() -> (p: Ppi)
        ensures
            p.powered_on(),
            p.port_a == 0,
            p.port_b_input == 0x1E,
            p.port_c == 0,
            p.control_register == 0x92,
    {
        Ppi { port_a: 0, port_b_input: 0x1E, port_c: 0, control_register: 0x92 }
    }

    /// Value read on `port` (see `read_register`).
    pub open spec fn register_value(&self, port: u16, psg: Psg, tape_bit: bool) -> u8 {
        let r = (port >> 8) & 0x03;
        if r == 0 {
            if self.port_c & 0xC0 == 0x40 { psg.read_current_register_value() } else { self.port_a }
        } else if r == 1 {
            if tape_bit { self.port_b_input | 0x80 } else { self.port_b_input & !0x80u8 }
        } else if r == 2 {
            self.port_c
        } else {
            0xFF
        }
    }

    /// Read (port & 0x0800 == 0), register chosen by bits 9-8 of the port.
    /// Port B carries the tape level `tape_bit` on bit 7 as it is at the
    /// very time of the read (a tape pulse is often shorter than a
    /// scanline).
    pub fn read_register(&self, port: u16, psg: &Psg, tape_bit: bool) -> (v: u8)
        ensures
            v == self.register_value(port, *psg, tape_bit),
    {
        let r = (port >> 8) & 0x03;
        if r == 0 {
            if (self.port_c & 0xC0) == 0x40 {
                psg.read_current_register()
            } else {
                self.port_a
            }
        } else if r == 1 {
            if tape_bit { self.port_b_input | 0x80 } else { self.port_b_input & !0x80u8 }
        } else if r == 2 {
            self.port_c
        } else {
            0xFF
        }
    }

    /// Effect of a write of `value` on `port`: `n` and `npsg` after.
    pub open spec fn register_written(self, psg: Psg, port: u16, value: u8, n: Ppi, npsg: Psg) -> bool {
        let r = (port >> 8) & 0x03;
        if r == 0 {
            &&& n == (Ppi { port_a: value, ..self })
            &&& psg_synced(value, self.port_c, psg, npsg)
        } else if r == 2 {
            &&& n == (Ppi { port_c: value, ..self })
            &&& psg_synced(self.port_a, value,
                Psg { selected_keyboard_line: value & 0x0F, ..psg }, npsg)
        } else if r == 3 {
            if value & 0x80 == 0 {
                let b = (value >> 1) & 0x07;
                let c = if value & 0x01 != 0 { self.port_c | (1u8 << b) } else { self.port_c & !(1u8 << b) };
                &&& n == (Ppi { port_c: c, ..self })
                &&& psg_synced(self.port_a, c, Psg { selected_keyboard_line: c & 0x0F, ..psg }, npsg)
            } else {
                &&& n == (Ppi { control_register: value, port_a: 0, port_c: 0, ..self })
                &&& npsg == (Psg { selected_keyboard_line: 0, ..psg })
            }
        } else {
            n == self && npsg == psg
        }
    }

    /// Write (port & 0x0800 == 0). Setting the mode (control word with bit
    /// 7 set) also clears the output registers, as the 8255 does: code
    /// that reads port C back and ORs a keyboard row into it relies on it.
    pub fn write_register(&mut self, port: u16, value: u8, psg: &mut Psg)
        ensures
            old(self).register_written(*old(psg), port, value, *final(self), *final(psg)),
    {
        let r = (port >> 8) & 0x03;
        if r == 0 {
            self.port_a = value;
            self.sync_psg(psg);
        } else if r == 2 {
            self.port_c = value;
            psg.selected_keyboard_line = value & 0x0F;
            self.sync_psg(psg);
        } else if r == 3 {
            if (value & 0x80) == 0 {
                let bit_to_modify = (value >> 1) & 0x07;
                assert((value >> 1) & 0x07 < 8) by (bit_vector);
                if (value & 0x01) != 0 {
                    self.port_c = self.port_c | (1u8 << bit_to_modify);
                } else {
                    self.port_c = self.port_c & !(1u8 << bit_to_modify);
                }
                psg.selected_keyboard_line = self.port_c & 0x0F;
                self.sync_psg(psg);
            } else {
                self.control_register = value;
                self.port_a = 0;
                self.port_c = 0;
                psg.selected_keyboard_line = 0;
            }
        }
    }

    /// Applies the PSG control bits of port C.
    fn sync_psg(&self, psg: &mut Psg)
        ensures
            psg_synced(self.port_a, self.port_c, *old(psg), *final(psg)),
    {
        let control = self.port_c & 0xC0;
        if control == 0xC0 {
            psg.selected_register = self.port_a;
        } else if control == 0x80 {
            psg.write_current_register(self.port_a);
        }
    }

    /// Updates the system bits of port B, once per scanline: VSYNC (bit 0)
    /// and the joystick selection (bit 1, 1 for joystick A). The tape bit
    /// (7) is set at read time instead.
    pub fn set_system_port_b(&mut self, vsync: bool, joystick_sel: bool)
        ensures
            final(self).port_b_input == {
                let b0 = if vsync { old(self).port_b_input | 0x01 } else { old(self).port_b_input & !0x01u8 };
                if joystick_sel { b0 | 0x02 } else { b0 & !0x02u8 }
            },
            final(self).port_a == old(self).port_a,
            final(self).port_c == old(self).port_c,
            final(self).control_register == old(self).control_register,
    {
        if vsync {
            self.port_b_input = self.port_b_input | 0x01;
        } else {
            self.port_b_input = self.port_b_input & !0x01u8;
        }
        if joystick_sel {
            self.port_b_input = self.port_b_input | 0x02;
        } else {
            self.port_b_input = self.port_b_input & !0x02u8;
        }
    }
}

impl Default for Ppi {
    fn default() -> (p: Ppi)
        ensures
            p.port_a == 0,
            p.port_b_input == 0x1E,
            p.port_c == 0,
            p.control_register == 0x92,
    {
        Ppi::new()
    }
}

} // verus!
