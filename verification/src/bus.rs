//! The system bus of the CPC: it connects the Z80 to the memory and to the
//! chips behind the I/O ports, decoded from the address bits of each port.

use crate::engine::crtc::Crtc;
use crate::engine::memory::{extended_selection, Memory};
use crate::engine::ppi::Ppi;
use crate::fdc::{Fdc, FdcPhase};
use crate::gate_array::GateArray;
use crate::psg::Psg;
use crate::tape::Tape;
use std::collections::HashSet;
use vstd::prelude::*;

verus! {

broadcast use vstd::std_specs::hash::group_hash_axioms;

/// Whether the disc interface answers on `port`: bits 10 and 7 both
/// clear. Both count: testing bit 10 alone makes the controller answer
/// ports meant for other chips, among them &79FF used for RAM banking.
pub fn fdc_selected(port: u16) -> (b: bool)
    ensures
        b == (port & 0x0480 == 0),
{
    (port & 0x0480) == 0
}

/// The bus and every chip on it.
pub struct CpcBus {
    pub memory: Memory,
    pub gate_array: GateArray,
    pub crtc: Crtc,
    pub psg: Psg,
    pub ppi: Ppi,
    pub fdc: Fdc,
    pub tape: Tape,
    /// Addresses whose writes stop the machine (debugger).
    pub watchpoints: HashSet<u16>,
    /// Address of the last write that hit a watchpoint, until collected.
    pub watchpoint_hit: Option<u16>,
}

/// Function of the CRTC chosen by bits 9-8 of a port: 0 selects a
/// register, 1 writes it, 2 reads the status, 3 reads the data.
pub open spec fn crtc_function(port: u16) -> u16 {
    (port >> 8) & 0x03
}

impl CpcBus {
    /// The memory and the keyboard are consistent, and the interrupt
    /// counter of the GA chip is below its period.
    pub open spec fn wf(&self) -> bool {
        self.memory.wf() && self.psg.wf() && self.gate_array.hsync_counter < 52
    }

    /// Effect of an I/O write of `value` on `port`: `n` after. A port can
    /// reach several chips at once, each by its own address bits: the GA
    /// chip (bits 15-14 = 01, with the MMU on values with bits 7-6 set),
    /// the CRTC (bit 14 clear), the PPI (bit 11 clear, its port C bit 4
    /// driving the tape motor), the upper ROM selection (bit 13 clear) and
    /// the disc interface (bits 10 and 7 clear: bit 8 set for the
    /// controller's data register, clear for the motor).
    pub open spec fn io_written(self, port: u16, value: u8, n: CpcBus) -> bool {
        let ga = port & 0xC000 == 0x4000;
        let mmu = ga && value & 0xC0 == 0xC0;
        let crtc = port & 0x4000 == 0;
        let ppi = port & 0x0800 == 0;
        let rom = port & 0x2000 == 0;
        let fdc = port & 0x0480 == 0;
        &&& if ga {
            self.gate_array.register_written(value, self.memory.rom_low_enabled, self.memory.rom_high_enabled,
                n.gate_array, n.memory.rom_low_enabled, n.memory.rom_high_enabled)
        } else {
            &&& n.gate_array == self.gate_array
            &&& n.memory.rom_low_enabled == self.memory.rom_low_enabled
            &&& n.memory.rom_high_enabled == self.memory.rom_high_enabled
        }
        &&& n.memory.ram_config == if mmu { value & 0x07 } else { self.memory.ram_config }
        &&& n.memory.extended_page1_bank == if mmu {
            extended_selection(port, value, self.memory.extra_ram_banks)
        } else {
            self.memory.extended_page1_bank
        }
        &&& n.memory.selected_high_rom == if rom { value } else { self.memory.selected_high_rom }
        &&& n.memory == (Memory {
            rom_low_enabled: n.memory.rom_low_enabled,
            rom_high_enabled: n.memory.rom_high_enabled,
            ram_config: n.memory.ram_config,
            extended_page1_bank: n.memory.extended_page1_bank,
            selected_high_rom: n.memory.selected_high_rom,
            ..self.memory
        })
        &&& if crtc && crtc_function(port) == 0 {
            n.crtc == (Crtc { selected_register: value & 0x1F, ..self.crtc })
        } else if crtc && crtc_function(port) == 1 {
            self.crtc.data_written(value, n.crtc)
        } else {
            n.crtc == self.crtc
        }
        &&& if ppi {
            &&& self.ppi.register_written(self.psg, port, value, n.ppi, n.psg)
            &&& n.tape == (Tape { motor_on: n.ppi.port_c & 0x10 != 0, ..self.tape })
        } else {
            n.ppi == self.ppi && n.psg == self.psg && n.tape == self.tape
        }
        &&& if fdc && port & 0x0100 != 0 && port & 0x0001 != 0 {
            // The controller's data register; a byte past the largest
            // count a transfer can hold is dropped.
            if self.fdc.phase == FdcPhase::ExecutionWrite && self.fdc.execution_index == usize::MAX {
                n.fdc == self.fdc
            } else {
                self.fdc.data_written(value, n.fdc)
            }
        } else if fdc && port & 0x0100 == 0 {
            n.fdc == (Fdc { motor_on: value & 0x01 != 0, ..self.fdc })
        } else {
            n.fdc == self.fdc
        }
        &&& n.watchpoints == self.watchpoints
        &&& n.watchpoint_hit == self.watchpoint_hit
    }

    /// What an I/O read of `port` gives, `v`, and the bus after, `n`:
    /// the PPI (bit 11 clear; port B carries the tape level of the very
    /// moment), then the CRTC's status and data ports (bit 14 clear,
    /// functions 2 and 3), then the disc controller (bits 10 and 7 clear,
    /// bit 8 set: data register on bit 0 set, which consumes the byte, else
    /// the main status register); nothing else answers, and the bus floats
    /// at &FF.
    pub open spec fn io_read(self, port: u16, v: u8, n: CpcBus) -> bool {
        if port & 0x0800 == 0 {
            v == self.ppi.register_value(port, self.psg, self.tape.state().level) && n == self
        } else if port & 0x4000 == 0 && crtc_function(port) == 2 {
            v == 0 && n == self
        } else if port & 0x4000 == 0 && crtc_function(port) == 3 {
            v == (if 12 <= self.crtc.selected_register <= 17 {
                self.crtc.registers[self.crtc.selected_register as int]
            } else {
                0
            }) && n == self
        } else if port & 0x0480 == 0 && port & 0x0100 != 0 {
            if port & 0x0001 != 0 {
                self.fdc.data_read(v, n.fdc) && n == (CpcBus { fdc: n.fdc, ..self })
            } else {
                v == self.fdc.msr() && n == self
            }
        } else {
            v == 0xFF && n == self
        }
    }

    /// Every chip in its power-on state (see each chip's `powered_on`),
    /// drive B present or not (`drive_b`).
    pub open spec fn chips_powered_on(&self, drive_b: bool) -> bool {
        &&& self.gate_array.powered_on()
        &&& self.crtc.powered_on()
        &&& self.psg.powered_on()
        &&& self.ppi.powered_on()
        &&& self.fdc.powered_on_with(drive_b)
        &&& self.tape.powered_on()
    }

    /// A bus with fresh chips around `memory`.
    pub fn new(memory: Memory) -> (b: CpcBus)
        requires
            memory.wf(),
        ensures
            b.wf(),
            b.memory == memory,
            b.watchpoints@ == Set::<u16>::empty(),
            b.watchpoint_hit is None,
            !b.tape.motor_on,
            b.chips_powered_on(false),
    {
        CpcBus {
            memory,
            gate_array: GateArray::new(),
            crtc: Crtc::new(),
            psg: Psg::new(),
            ppi: Ppi::new(),
            fdc: Fdc::new(),
            tape: Tape::new(),
            watchpoints: HashSet::new(),
            watchpoint_hit: None,
        }
    }

    /// Memory read, as the Z80 sees it.
    pub fn read_byte(&self, address: u16) -> (v: u8)
        requires
            self.wf(),
        ensures
            v == self.memory.value(address),
    {
        self.memory.read_byte(address)
    }

    /// Memory write; a watched address records the hit.
    pub fn write_byte(&mut self, address: u16, value: u8)
        requires
            old(self).wf(),
        ensures
            final(self).wf(),
            old(self).memory.written(address, value, final(self).memory),
            final(self).watchpoint_hit == if old(self).watchpoints@.contains(address) {
                Some(address)
            } else {
                old(self).watchpoint_hit
            },
            *final(self) == (CpcBus { memory: final(self).memory, watchpoint_hit: final(self).watchpoint_hit, ..*old(self) }),
    {
        if self.watchpoints.contains(&address) {
            self.watchpoint_hit = Some(address);
        }
        self.memory.write_byte(address, value);
    }

    /// Little-endian word at `address` (the high byte at the next address,
    /// wrapping at the top of memory).
    pub fn read_word(&self, address: u16) -> (w: u16)
        requires
            self.wf(),
        ensures
            w == self.memory.value(address) as u16 + 256 * self.memory.value(address.wrapping_add(1)) as u16,
    {
        let lo = self.read_byte(address) as u16;
        let hi = self.read_byte(address.wrapping_add(1)) as u16;
        lo + 256 * hi
    }

    /// I/O read (see `io_read`).
    pub fn read_io(&mut self, port: u16) -> (v: u8)
        requires
            old(self).wf(),
        ensures
            final(self).wf(),
            old(self).io_read(port, v, *final(self)),
    {
        if (port & 0x0800) == 0 {
            let bit = self.tape.read_bit();
            return self.ppi.read_register(port, &self.psg, bit);
        }
        if (port & 0x4000) == 0 {
            let f = (port >> 8) & 0x03;
            if f == 2 {
                return self.crtc.read_status();
            } else if f == 3 {
                return self.crtc.read_data();
            }
        }
        if fdc_selected(port) && (port & 0x0100) != 0 {
            if (port & 0x0001) != 0 {
                return self.fdc.read_data();
            } else {
                return self.fdc.read_msr();
            }
        }
        0xFF
    }

    /// I/O write (see `io_written`).
    pub fn write_io(&mut self, port: u16, value: u8)
        requires
            old(self).wf(),
        ensures
            final(self).wf(),
            old(self).io_written(port, value, *final(self)),
    {
        self.write_gate_array(port, value);
        self.write_crtc(port, value);
        self.write_ppi(port, value);
        if (port & 0x2000) == 0 {
            self.memory.select_high_rom(value);
        }
        self.write_fdc(port, value);
    }

    /// The GA chip and MMU part of `write_io`.
    fn write_gate_array(&mut self, port: u16, value: u8)
        requires
            old(self).wf(),
        ensures
            final(self).wf(),
            if port & 0xC000 == 0x4000 {
                old(self).gate_array.register_written(value, old(self).memory.rom_low_enabled,
                    old(self).memory.rom_high_enabled, final(self).gate_array,
                    final(self).memory.rom_low_enabled, final(self).memory.rom_high_enabled)
            } else {
                &&& final(self).gate_array == old(self).gate_array
                &&& final(self).memory.rom_low_enabled == old(self).memory.rom_low_enabled
                &&& final(self).memory.rom_high_enabled == old(self).memory.rom_high_enabled
            },
            final(self).memory.ram_config == if port & 0xC000 == 0x4000 && value & 0xC0 == 0xC0 {
                value & 0x07
            } else {
                old(self).memory.ram_config
            },
            final(self).memory.extended_page1_bank == if port & 0xC000 == 0x4000 && value & 0xC0 == 0xC0 {
                extended_selection(port, value, old(self).memory.extra_ram_banks)
            } else {
                old(self).memory.extended_page1_bank
            },
            final(self).memory == (Memory {
                rom_low_enabled: final(self).memory.rom_low_enabled,
                rom_high_enabled: final(self).memory.rom_high_enabled,
                ram_config: final(self).memory.ram_config,
                extended_page1_bank: final(self).memory.extended_page1_bank,
                ..old(self).memory
            }),
            *final(self) == (CpcBus { gate_array: final(self).gate_array, memory: final(self).memory, ..*old(self) }),
    {
        if (port & 0xC000) == 0x4000 {
            assert(value >> 6 <= 3) by (bit_vector);
            self.gate_array.write_register(value, &mut self.memory.rom_low_enabled, &mut self.memory.rom_high_enabled);
            if (value & 0xC0) == 0xC0 {
                self.memory.write_mmu_register(port, value);
            }
        }
    }

    /// The CRTC part of `write_io`.
    fn write_crtc(&mut self, port: u16, value: u8)
        ensures
            if port & 0x4000 == 0 && crtc_function(port) == 0 {
                final(self).crtc == (Crtc { selected_register: value & 0x1F, ..old(self).crtc })
            } else if port & 0x4000 == 0 && crtc_function(port) == 1 {
                old(self).crtc.data_written(value, final(self).crtc)
            } else {
                final(self).crtc == old(self).crtc
            },
            *final(self) == (CpcBus { crtc: final(self).crtc, ..*old(self) }),
    {
        if (port & 0x4000) == 0 {
            let f = (port >> 8) & 0x03;
            if f == 0 {
                self.crtc.select_register(value);
            } else if f == 1 {
                self.crtc.write_data(value);
            }
        }
    }

    /// The PPI part of `write_io`, with the tape motor.
    fn write_ppi(&mut self, port: u16, value: u8)
        requires
            old(self).wf(),
        ensures
            final(self).wf(),
            if port & 0x0800 == 0 {
                &&& old(self).ppi.register_written(old(self).psg, port, value, final(self).ppi, final(self).psg)
                &&& final(self).tape == (Tape { motor_on: final(self).ppi.port_c & 0x10 != 0, ..old(self).tape })
            } else {
                final(self).ppi == old(self).ppi && final(self).psg == old(self).psg && final(self).tape == old(self).tape
            },
            *final(self) == (CpcBus { ppi: final(self).ppi, psg: final(self).psg, tape: final(self).tape, ..*old(self) }),
    {
        if (port & 0x0800) == 0 {
            self.ppi.write_register(port, value, &mut self.psg);
            self.tape.motor_on = (self.ppi.port_c & 0x10) != 0;
        }
    }

    /// The disc interface part of `write_io`.
    fn write_fdc(&mut self, port: u16, value: u8)
        ensures
            if port & 0x0480 == 0 && port & 0x0100 != 0 && port & 0x0001 != 0 {
                if old(self).fdc.phase == FdcPhase::ExecutionWrite && old(self).fdc.execution_index == usize::MAX {
                    final(self).fdc == old(self).fdc
                } else {
                    old(self).fdc.data_written(value, final(self).fdc)
                }
            } else if port & 0x0480 == 0 && port & 0x0100 == 0 {
                final(self).fdc == (Fdc { motor_on: value & 0x01 != 0, ..old(self).fdc })
            } else {
                final(self).fdc == old(self).fdc
            },
            *final(self) == (CpcBus { fdc: final(self).fdc, ..*old(self) }),
    {
        if fdc_selected(port) {
            if (port & 0x0100) != 0 {
                if (port & 0x0001) != 0 {
                    if !(self.fdc.phase == FdcPhase::ExecutionWrite && self.fdc.execution_index == usize::MAX) {
                        self.fdc.write_data(value);
                    }
                }
            } else {
                self.fdc.motor_on = (value & 0x01) != 0;
            }
        }
    }
}

} // verus!
