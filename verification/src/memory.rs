//! Memory of the first CPC 6128 model of this emulator: 128 KB of RAM in
//! eight 16 KB banks, the lower ROM, and up to 256 upper ROMs (RAM shows
//! through where the selected upper ROM is absent).

use vstd::prelude::*;
use crate::engine::memory::{bank_mapping, copy_into, lemma_standard_ram_configurations, BANK_SIZE};

verus! {

/// Memory of the CPC 6128.
pub struct Memory {
    pub ram: Vec<u8>,
    pub rom_low: Vec<u8>,
    /// The 256 upper ROMs, 16 KB each, one after the other (4 MB).
    pub rom_high: Vec<u8>,
    pub rom_high_present: [bool; 256],
    pub rom_low_enabled: bool,
    pub rom_high_enabled: bool,
    pub selected_high_rom: u8,
    pub ram_config: u8,
}

impl Memory {
    /// RAM of 128 KB, ROM areas of their sizes.
    pub open spec fn wf(&self) -> bool {
        &&& self.ram@.len() == 8 * BANK_SIZE
        &&& self.rom_low@.len() == BANK_SIZE
        &&& self.rom_high@.len() == 256 * BANK_SIZE
    }

    /// Offset in `ram` of the byte the processor sees at `address`.
    pub open spec fn physical(&self, address: u16) -> int {
        bank_mapping(self.ram_config)[address as int / 0x4000] * BANK_SIZE + address as int % 0x4000
    }

    /// The byte the processor reads at `address`: the lower ROM below
    /// 0x4000 when enabled, the selected upper ROM from 0xC000 when enabled
    /// and present, RAM otherwise.
    pub open spec fn value(&self, address: u16) -> u8 {
        if address < 0x4000 && self.rom_low_enabled {
            self.rom_low@[address as int]
        } else if address >= 0xC000 && self.rom_high_enabled && self.rom_high_present[self.selected_high_rom as int] {
            self.rom_high@[self.selected_high_rom as int * BANK_SIZE + (address - 0xC000)]
        } else {
            self.ram@[self.physical(address)]
        }
    }

    /// `n` is `self` after a write of `value` at `address`: only the RAM
    /// byte mapped there changes.
    pub open spec fn written(&self, address: u16, value: u8, n: Memory) -> bool {
        &&& n.ram@ == self.ram@.update(self.physical(address), value)
        &&& n == (Memory { ram: n.ram, ..*self })
    }

    /// A cleared 128 KB memory, both ROMs enabled, none loaded.
    pub fn new() -> (m: Memory)
        ensures
            m.wf(),
            forall|i: int| 0 <= i < m.ram@.len() ==> m.ram@[i] == 0,
            forall|i: int| 0 <= i < m.rom_low@.len() ==> m.rom_low@[i] == 0,
            forall|i: int| 0 <= i < m.rom_high@.len() ==> m.rom_high@[i] == 0,
            forall|r: int| 0 <= r < 256 ==> !m.rom_high_present[r],
            m.rom_low_enabled,
            m.rom_high_enabled,
            m.selected_high_rom == 0,
            m.ram_config == 0,
    {
        let ram = vec![0u8; 8 * BANK_SIZE];
        let rom_low = vec![0u8; BANK_SIZE];
        // 256 banks of 16 KB: 4 MB.
        let rom_high = vec![0u8; 256 * BANK_SIZE];
        Memory {
            ram,
            rom_low,
            rom_high,
            rom_high_present: [false; 256],
            rom_low_enabled: true,
            rom_high_enabled: true,
            selected_high_rom: 0,
            ram_config: 0,
        }
    }

    /// Loads the lower ROM (at most 16 KB of `data`).
    pub fn load_low_rom(&mut self, data: &[u8])
        requires
            old(self).wf(),
        ensures
            final(self).wf(),
            forall|i: int| 0 <= i < BANK_SIZE ==> #[trigger] final(self).rom_low@[i] == if i < data@.len() {
                data@[i]
            } else {
                old(self).rom_low@[i]
            },
            *final(self) == (Memory { rom_low: final(self).rom_low, ..*old(self) }),
    {
        let size = if data.len() < self.rom_low.len() { data.len() } else { self.rom_low.len() };
        copy_into(&mut self.rom_low, 0, data, size);
    }

    /// Loads upper ROM `index` (at most 16 KB of `data`) and marks it
    /// present.
    pub fn load_high_rom(&mut self, index: u8, data: &[u8])
        requires
            old(self).wf(),
        ensures
            final(self).wf(),
            forall|i: int| 0 <= i < 256 * BANK_SIZE ==> #[trigger] final(self).rom_high@[i] == {
                let start = index as int * BANK_SIZE;
                if start <= i < start + BANK_SIZE && i - start < data@.len() {
                    data@[i - start]
                } else {
                    old(self).rom_high@[i]
                }
            },
            final(self).rom_high_present@ == old(self).rom_high_present@.update(index as int, true),
            *final(self) == (Memory {
                rom_high: final(self).rom_high,
                rom_high_present: final(self).rom_high_present,
                ..*old(self)
            }),
    {
        let start = index as usize * BANK_SIZE;
        let size = if data.len() < BANK_SIZE { data.len() } else { BANK_SIZE };
        copy_into(&mut self.rom_high, start, data, size);
        self.rom_high_present[index as usize] = true;
    }

    /// Selects the upper ROM (I/O write to &DF00).
    pub fn select_high_rom(&mut self, index: u8)
        ensures
            *final(self) == (Memory { selected_high_rom: index, ..*old(self) }),
    {
        self.selected_high_rom = index;
    }

    /// Offset in the 128 KB of RAM for a processor address.
    pub fn get_ram_physical_address(&self, address: u16) -> (p: usize)
        ensures
            p as int == self.physical(address),
            p < 8 * BANK_SIZE,
    {
        let page = (address / 0x4000) as usize;
        let offset = (address % 0x4000) as usize;
        let k = self.ram_config & 0x07;
        let map: [usize; 4] = if k == 0 { [0, 1, 2, 3] }
            else if k == 1 { [0, 1, 2, 7] }
            else if k == 2 { [4, 5, 6, 7] }
            else if k == 3 { [0, 3, 2, 7] }
            else if k == 4 { [0, 4, 2, 3] }
            else if k == 5 { [0, 5, 2, 3] }
            else if k == 6 { [0, 6, 2, 3] }
            else { [0, 7, 2, 3] };
        let bank = map[page];
        assert(bank == bank_mapping(self.ram_config)[page as int]);
        bank * BANK_SIZE + offset
    }

    /// Reads a byte under the current banking (RAM and ROMs).
    pub fn read_byte(&self, address: u16) -> (v: u8)
        requires
            self.wf(),
        ensures
            v == self.value(address),
    {
        let selected = self.selected_high_rom as usize;
        if address < 0x4000 && self.rom_low_enabled {
            self.rom_low[address as usize]
        } else if address >= 0xC000 && self.rom_high_enabled && self.rom_high_present[selected] {
            let start = selected * BANK_SIZE;
            let offset = (address - 0xC000) as usize;
            self.rom_high[start + offset]
        } else {
            let p = self.get_ram_physical_address(address);
            self.ram[p]
        }
    }

    /// Writes a byte: always to RAM, whatever the ROM banking.
    pub fn write_byte(&mut self, address: u16, value: u8)
        requires
            old(self).wf(),
        ensures
            final(self).wf(),
            old(self).written(address, value, *final(self)),
    {
        let p = self.get_ram_physical_address(address);
        self.ram.set(p, value);
    }
}

/// A write is read back: after writing `value` at `address`, RAM at that
/// address holds `value` (and so does a read, unless a ROM covers the
/// address), while every address mapped elsewhere keeps its byte.
pub proof fn lemma_read_after_write(m: Memory, address: u16, value: u8, n: Memory, other: u16)
    requires
        m.wf(),
        m.written(address, value, n),
    ensures
        n.wf(),
        n.ram@[n.physical(address)] == value,
        !(address < 0x4000 && m.rom_low_enabled)
            && !(address >= 0xC000 && m.rom_high_enabled && m.rom_high_present[m.selected_high_rom as int])
            ==> n.value(address) == value,
        m.physical(other) != m.physical(address) ==> n.value(other) == m.value(other),
{
    assert(0 <= m.physical(address) < 8 * BANK_SIZE) by {
        assert(bank_mapping(m.ram_config)[address as int / 0x4000] < 8);
    }
    assert(0 <= m.physical(other) < 8 * BANK_SIZE) by {
        assert(bank_mapping(m.ram_config)[other as int / 0x4000] < 8);
    }
}

/// Where a processor address lands in the 128 KB of RAM: its page's bank
/// under the configuration (see `lemma_standard_ram_configurations`: after
/// an MMU write of 0xC1, page 3 is bank 7, so 0xC000 lands at 7 * 16 KB),
/// times 16 KB, plus its offset in the page.
pub proof fn lemma_physical_address(m: Memory, address: u16)
    ensures
        ({
            let k = (m.ram_config & 0x07) as int;
            let page = address as int / 0x4000;
            let bank = if k == 0 {
                page
            } else if k == 1 {
                if page == 3 { 7 } else { page }
            } else if k == 2 {
                4 + page
            } else if k == 3 {
                if page == 1 { 3 } else if page == 3 { 7 } else { page }
            } else {
                if page == 1 { k } else { page }
            };
            m.physical(address) == bank * 0x4000 + address as int % 0x4000
        }),
{
    lemma_standard_ram_configurations(m.ram_config, address as int / 0x4000);
}

} // verus!
