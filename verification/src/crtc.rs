//! The 6845 CRTC of the first model of this emulator: its 18 registers
//! behind the address and data ports.

use vstd::prelude::*;

verus! {

/// The 6845 video controller: it generates the video RAM addresses, the
/// HSYNC and VSYNC, and sizes the screen.
pub struct Crtc {
    /// Register selected (0 to 17).
    pub selected_register: u8,
    /// The 18 configuration registers.
    pub registers: [u8; 18],
}

impl Crtc {
    /// A CRTC with every register at 0.
    pub fn new() -> (c: Crtc)
        ensures
            c.selected_register == 0,
            forall|i: int| 0 <= i < 18 ==> c.registers[i] == 0,
    {
        Crtc { selected_register: 0, registers: [0; 18] }
    }

    /// Address write (port with bit 14 clear and bit 9 set): selects a
    /// register; a number past 17 is ignored.
    pub fn select_register(&mut self, reg: u8)
        ensures
            final(self).selected_register == if reg < 18 { reg } else { old(self).selected_register },
            final(self).registers == old(self).registers,
    {
        if reg < 18 {
            self.selected_register = reg;
        }
    }

    /// Data write (port with bits 14 and 9 clear) to the selected register.
    pub fn write_data(&mut self, val: u8)
        ensures
            final(self).selected_register == old(self).selected_register,
            final(self).registers@ == if old(self).selected_register < 18 {
                old(self).registers@.update(old(self).selected_register as int, val)
            } else {
                old(self).registers@
            },
    {
        let reg = self.selected_register as usize;
        if reg < 18 {
            self.registers[reg] = val;
        }
    }

    /// Read of the selected register (0 past R17).
    pub fn read_data(&self) -> (v: u8)
        ensures
            v == if self.selected_register < 18 { self.registers[self.selected_register as int] } else { 0 },
    {
        let reg = self.selected_register as usize;
        if reg < 18 { self.registers[reg] } else { 0 }
    }
}

/// What is written to a register is read back.
pub proof fn lemma_register_read_back(c: Crtc, n: Crtc, val: u8)
    requires
        c.selected_register < 18,
        n.selected_register == c.selected_register,
        n.registers@ == c.registers@.update(c.selected_register as int, val),
    ensures
        n.registers[n.selected_register as int] == val,
{
}

} // verus!
