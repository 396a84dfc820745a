//! The 8255 PPI of the CPC: it connects the processor to the PSG, the
//! keyboard and the system signals (VSYNC, tape).

use vstd::prelude::*;
use crate::psg::Psg;

verus! {

/// The 8255 programmable peripheral interface.
pub struct Ppi {
    /// Data exchanged with the PSG.
    pub port_a: u8,
    /// System status input (VSYNC, ...).
    pub port_b_input: u8,
    /// PSG control and keyboard row selection.
    pub port_c: u8,
    /// Direction of the ports.
    pub control_register: u8,
}

/// `n` is `p` after the PSG control bits of port C (7-6) are applied:
/// 11 selects the register whose number is on port A, 10 writes port A to
/// the selected register; other values do nothing.
pub open spec fn psg_synced(port_a: u8, port_c: u8, p: Psg, n: Psg) -> bool {
    let control = port_c & 0xC0;
    if control == 0xC0 {
        n == (Psg { selected_register: port_a, ..p })
    } else if control == 0x80 {
        if p.selected_register < 16 {
            &&& n == (Psg { registers: n.registers, envelope_restart: p.envelope_restart || p.selected_register == 13, ..p })
            &&& n.registers@ == p.registers@.update(p.selected_register as int,
                port_a & crate::psg::register_mask(p.selected_register as int))
        } else {
            n == p
        }
    } else {
        n == p
    }
}

impl Ppi {
    /// A PPI in the CPC's default mode.
    pub fn new() -> (p: Ppi)
        ensures
            p.port_a == 0,
            p.port_b_input == 0x1E,
            p.port_c == 0,
            p.control_register == 0x92,
    {
        // Port B: VSYNC low, factory link configuration.
        Ppi { port_a: 0, port_b_input: 0x1E, port_c: 0, control_register: 0x92 }
    }

    /// Read (port & 0x0800 == 0), the register chosen by bits 9-8 of the
    /// port: port A gives the PSG's selected register when port C asks
    /// for a read (bits 7-6 = 01), port B the system status, port C its
    /// outputs; the control register reads 0xFF.
    pub fn read_register(&self, port: u16, psg: &Psg) -> (v: u8)
        ensures
            v == {
                let r = (port >> 8) & 0x03;
                if r == 0 {
                    if self.port_c & 0xC0 == 0x40 { psg.read_current_register_value() } else { self.port_a }
                } else if r == 1 {
                    self.port_b_input
                } else if r == 2 {
                    self.port_c
                } else {
                    0xFF
                }
            },
    {
        let r = (port >> 8) & 0x03;
        if r == 0 {
            if (self.port_c & 0xC0) == 0x40 {
                psg.read_current_register()
            } else {
                self.port_a
            }
        } else if r == 1 {
            self.port_b_input
        } else if r == 2 {
            self.port_c
        } else {
            0xFF
        }
    }

    /// Write (port & 0x0800 == 0): port A to the PSG, port C (PSG control
    /// and keyboard row, bits 3-0), or the control register (bit 7 clear:
    /// set or reset one bit of port C; set: the port directions). Port B
    /// is read-only.
    pub fn write_register(&mut self, port: u16, value: u8, psg: &mut Psg)
        ensures
            ({
                let r = (port >> 8) & 0x03;
                if r == 0 {
                    &&& *final(self) == (Ppi { port_a: value, ..*old(self) })
                    &&& psg_synced(value, old(self).port_c, *old(psg), *final(psg))
                } else if r == 2 {
                    &&& *final(self) == (Ppi { port_c: value, ..*old(self) })
                    &&& psg_synced(old(self).port_a, value,
                        Psg { selected_keyboard_line: value & 0x0F, ..*old(psg) }, *final(psg))
                } else if r == 3 {
                    if value & 0x80 == 0 {
                        let b = (value >> 1) & 0x07;
                        let c = if value & 0x01 != 0 { old(self).port_c | (1u8 << b) } else { old(self).port_c & !(1u8 << b) };
                        &&& *final(self) == (Ppi { port_c: c, ..*old(self) })
                        &&& psg_synced(old(self).port_a, c, Psg { selected_keyboard_line: c & 0x0F, ..*old(psg) }, *final(psg))
                    } else {
                        &&& *final(self) == (Ppi { control_register: value, ..*old(self) })
                        &&& *final(psg) == *old(psg)
                    }
                } else {
                    *final(self) == *old(self) && *final(psg) == *old(psg)
                }
            }),
    {
        let r = (port >> 8) & 0x03;
        if r == 0 {
            self.port_a = value;
            self.sync_psg(psg);
        } else if r == 2 {
            self.port_c = value;
            psg.selected_keyboard_line = value & 0x0F;
            self.sync_psg(psg);
        } else if r == 3 {
            if (value & 0x80) == 0 {
                let bit_to_modify = (value >> 1) & 0x07;
                assert((value >> 1) & 0x07 < 8) by (bit_vector);
                if (value & 0x01) != 0 {
                    self.port_c = self.port_c | (1u8 << bit_to_modify);
                } else {
                    self.port_c = self.port_c & !(1u8 << bit_to_modify);
                }
                psg.selected_keyboard_line = self.port_c & 0x0F;
                self.sync_psg(psg);
            } else {
                self.control_register = value;
            }
        }
    }

    /// Applies the PSG control bits of port C (see `psg_synced`).
    fn sync_psg(&self, psg: &mut Psg)
        ensures
            psg_synced(self.port_a, self.port_c, *old(psg), *final(psg)),
    {
        let control = self.port_c & 0xC0;
        if control == 0xC0 {
            psg.selected_register = self.port_a;
        } else if control == 0x80 {
            psg.write_current_register(self.port_a);
        }
    }

    /// Sets the VSYNC signal on port B (bit 0).
    pub fn set_vsync(&mut self, vsync_active: bool)
        ensures
            final(self).port_b_input == if vsync_active { old(self).port_b_input | 0x01 } else { old(self).port_b_input & !0x01u8 },
            final(self).port_a == old(self).port_a,
            final(self).port_c == old(self).port_c,
            final(self).control_register == old(self).control_register,
    {
        if vsync_active {
            self.port_b_input = self.port_b_input | 0x01;
        } else {
            self.port_b_input = self.port_b_input & !0x01u8;
        }
    }
}

} // verus!
