//! Memory of the CPC 6128: 128 KB of RAM in 16 KB banks, optionally
//! extended by third-party RAM expansions, the lower ROM and up to 256
//! upper ROMs.

use crate::text::{decimal, push_decimal};
use vstd::prelude::*;
use vstd::string::*;

verus! {

/// Standard number of 16 KB banks of an unexpanded 6128 (128 KB).
pub const STANDARD_RAM_BANKS: usize = 8;

/// Size of a bank, and of a page of the Z80 address space.
pub const BANK_SIZE: usize = 16384;

/// Largest number of extended RAM "groups" the third-party expansion
/// protocol (Dk'tronics and the like) can address: 7 port sections
/// (0x78-0x7E; 0x7F stays the standard 128 KB port) of 8 banks each. A
/// group is 4 blocks of 16 KB, 64 KB, the unit of `extra_ram_banks`.
pub const MAX_EXTRA_RAM_GROUPS: u32 = 56;

/// Banks seen in pages 0..4 under the standard RAM configuration `c`
/// (its 3 low bits).
pub open spec fn bank_mapping(c: u8) -> Seq<u8> {
    let k = c & 0x07;
    if k == 0 { seq![0u8, 1, 2, 3] }
    else if k == 1 { seq![0u8, 1, 2, 7] }
    else if k == 2 { seq![4u8, 5, 6, 7] }
    else if k == 3 { seq![0u8, 3, 2, 7] }
    else if k == 4 { seq![0u8, 4, 2, 3] }
    else if k == 5 { seq![0u8, 5, 2, 3] }
    else if k == 6 { seq![0u8, 6, 2, 3] }
    else { seq![0u8, 7, 2, 3] }
}

/// The 6128's eight standard RAM configurations (the low three bits of an
/// MMU write 0xC0-0xC7), page by page (`page` 0 to 3, 16 KB each):
/// configuration 0 is the plain layout (page p on bank p); 1 puts bank 7
/// in page 3; 2 puts banks 4 to 7 in pages 0 to 3; 3 puts bank 3 in page
/// 1 and bank 7 in page 3; 4 to 7 put bank `config` (4 + n) in page 1.
/// Every other page keeps its plain bank.
pub proof fn lemma_standard_ram_configurations(c: u8, page: int)
    requires
        0 <= page < 4,
    ensures
        ({
            let k = (c & 0x07) as int;
            bank_mapping(c)[page] as int == if k == 0 {
                page
            } else if k == 1 {
                if page == 3 { 7 } else { page }
            } else if k == 2 {
                4 + page
            } else if k == 3 {
                if page == 1 { 3 } else if page == 3 { 7 } else { page }
            } else {
                if page == 1 { k } else { page }
            }
        }),
        bank_mapping(c).len() == 4,
{
    let k = c & 0x07;
    assert(k < 8) by {
        assert(c & 0x07 <= 7) by (bit_vector);
    }
}

/// Where a processor address lands in RAM under the standard
/// configurations (no extended bank in page 1): its page's bank, as
/// `lemma_standard_ram_configurations` lists them, times 16 KB, plus its
/// offset in the page; so after an MMU write of 0xC1, 0xC000 lands at
/// 7 * 16 KB.
pub proof fn lemma_standard_physical_address(m: Memory, address: u16)
    requires
        m.extended_page1_bank is None || address as int / 0x4000 != 1,
    ensures
        ({
            let k = (m.ram_config & 0x07) as int;
            let page = address as int / 0x4000;
            let bank = if k == 0 {
                page
            } else if k == 1 {
                if page == 3 { 7 } else { page }
            } else if k == 2 {
                4 + page
            } else if k == 3 {
                if page == 1 { 3 } else if page == 3 { 7 } else { page }
            } else {
                if page == 1 { k } else { page }
            };
            m.physical(address) == bank * 0x4000 + address as int % 0x4000
        }),
{
    lemma_standard_ram_configurations(m.ram_config, address as int / 0x4000);
}

/// Extended block selected by a write of `value` to the MMU port `port`
/// when `groups` groups are installed: ports 0x78xx-0x7Exx are sections
/// (0x7E first) of 8 banks (bits 5-3 of the value) of 4 blocks (bits 1-0);
/// a group beyond the installed ones, or any other port, selects none.
pub open spec fn extended_selection(port: u16, value: u8, groups: u32) -> Option<usize> {
    let port_high = (port >> 8) as u8;
    if 0x78 <= port_high && port_high < 0x7F {
        let section = (0x7E - port_high) as int;
        let bank = ((value >> 3) & 0x07) as int;
        let block = (value & 0x03) as int;
        let group = section * 8 + bank;
        if group < groups { Some((group * 4 + block) as usize) } else { None }
    } else {
        None
    }
}

/// Memory of the CPC 6128.
pub struct Memory {
    pub ram: Vec<u8>,
    pub rom_low: Vec<u8>,
    /// The 256 upper ROMs, 16 KB each, one after the other (4 MB).
    pub rom_high: Vec<u8>,
    pub rom_high_present: [bool; 256],
    pub rom_low_enabled: bool,
    pub rom_high_enabled: bool,
    pub selected_high_rom: u8,
    pub ram_config: u8,
    /// Number of 64 KB groups of RAM beyond the standard 128 KB
    /// (`[memory] extra_ram_banks`), at most `MAX_EXTRA_RAM_GROUPS`.
    pub extra_ram_banks: u32,
    /// Extended block mapped in page 1 (0x4000-0x7FFF) when the last MMU
    /// write selected an installed one (see `write_mmu_register`); `None`:
    /// page 1 follows `ram_config`, as on an unexpanded 6128.
    pub extended_page1_bank: Option<usize>,
}

/// The warning for a configured `extra_ram_banks` of `n`, above the
/// addressable maximum.
pub open spec fn capped_ram_text(n: nat) -> Seq<char> {
    "Config: memory.extra_ram_banks="@ + decimal(n) + " exceeds the addressable maximum ("@
        + decimal(MAX_EXTRA_RAM_GROUPS as nat) + "), capped."@
}

/// The warning to log when `Memory::new(extra_ram_banks)` caps the value:
/// there is one exactly when it exceeds `MAX_EXTRA_RAM_GROUPS`.
pub fn extra_ram_warning(extra_ram_banks: u32) -> (w: Option<String>)
    ensures
        w is Some <==> extra_ram_banks > MAX_EXTRA_RAM_GROUPS,
        w matches Some(m) ==> m@ == capped_ram_text(extra_ram_banks as nat),
{
    if extra_ram_banks > MAX_EXTRA_RAM_GROUPS {
        let mut m = String::from_str("Config: memory.extra_ram_banks=");
        push_decimal(&mut m, extra_ram_banks as u64);
        m.append(" exceeds the addressable maximum (");
        push_decimal(&mut m, MAX_EXTRA_RAM_GROUPS as u64);
        m.append("), capped.");
        Some(m)
    } else {
        None
    }
}

impl Memory {
    /// Sizes agree with the configuration, and the extended block mapped,
    /// if any, is installed.
    pub open spec fn wf(&self) -> bool {
        &&& self.extra_ram_banks <= MAX_EXTRA_RAM_GROUPS
        &&& self.ram@.len() == (STANDARD_RAM_BANKS + 4 * self.extra_ram_banks) * BANK_SIZE
        &&& self.rom_low@.len() == BANK_SIZE
        &&& self.rom_high@.len() == 256 * BANK_SIZE
        &&& match self.extended_page1_bank {
            Some(e) => e < 4 * self.extra_ram_banks,
            None => true,
        }
    }

    /// Offset in `ram` of the byte the processor sees at `address`.
    pub open spec fn physical(&self, address: u16) -> int {
        let page = address as int / 0x4000;
        let offset = address as int % 0x4000;
        if page == 1 && self.extended_page1_bank is Some {
            (STANDARD_RAM_BANKS + self.extended_page1_bank->0) * BANK_SIZE + offset
        } else {
            bank_mapping(self.ram_config)[page] * BANK_SIZE + offset
        }
    }

    /// Upper ROM read for the current selection: the selected one when
    /// present, otherwise ROM 0 (the internal BASIC, which keeps the bus
    /// when no expansion ROM answers), if present.
    pub open spec fn upper_rom(&self) -> Option<usize> {
        if self.rom_high_present[self.selected_high_rom as int] {
            Some(self.selected_high_rom as usize)
        } else if self.rom_high_present[0] {
            Some(0)
        } else {
            None
        }
    }

    /// The RAM byte at `address` under the current banking.
    pub open spec fn ram_value(&self, address: u16) -> u8 {
        self.ram@[self.physical(address)]
    }

    /// The byte the processor reads at `address`: the lower ROM below
    /// 0x4000 and an upper ROM from 0xC000 when enabled (0xFF when no upper
    /// ROM answers), RAM otherwise.
    pub open spec fn value(&self, address: u16) -> u8 {
        if address < 0x4000 && self.rom_low_enabled {
            self.rom_low@[address as int]
        } else if address >= 0xC000 && self.rom_high_enabled {
            match self.upper_rom() {
                Some(r) => self.rom_high@[r * BANK_SIZE + (address - 0xC000)],
                None => 0xFF,
            }
        } else {
            self.ram_value(address)
        }
    }

    /// `n` is `self` after a write of `value` at `address`: only the RAM
    /// byte mapped there changes.
    pub open spec fn written(&self, address: u16, value: u8, n: Memory) -> bool {
        &&& n.ram@ == self.ram@.update(self.physical(address), value)
        &&& n == (Memory { ram: n.ram, ..*self })
    }
}

/// Every address maps inside the RAM of a well-formed memory.
pub proof fn lemma_physical_in_ram(m: Memory, address: u16)
    requires
        m.wf(),
    ensures
        0 <= m.physical(address) < m.ram@.len(),
        m.physical(address) / BANK_SIZE as int == if address as int / 0x4000 == 1 && m.extended_page1_bank is Some {
            (STANDARD_RAM_BANKS + m.extended_page1_bank->0) as int
        } else {
            bank_mapping(m.ram_config)[address as int / 0x4000] as int
        },
{
    let page = address as int / 0x4000;
    let offset = address as int % 0x4000;
    let g = m.extra_ram_banks as int;
    assert(0 <= page < 4);
    if page == 1 && m.extended_page1_bank is Some {
        let e = m.extended_page1_bank->0 as int;
        assert((8 + e) * 16384 + offset < (8 + 4 * g) * 16384) by (nonlinear_arith)
            requires e < 4 * g, 0 <= offset < 16384;
        assert(((8 + e) * 16384 + offset) / 16384 == 8 + e) by (nonlinear_arith)
            requires 0 <= offset < 16384, e >= 0;
    } else {
        let b = bank_mapping(m.ram_config)[page] as int;
        assert(b < 8);
        assert(b * 16384 + offset < (8 + 4 * g) * 16384) by (nonlinear_arith)
            requires b < 8, 0 <= offset < 16384, g >= 0;
        assert((b * 16384 + offset) / 16384 == b) by (nonlinear_arith)
            requires 0 <= offset < 16384, b >= 0;
    }
}


/// Copies `size` bytes of `data` over the start of `dst` from `start`.
pub(crate) fn copy_into(dst: &mut Vec<u8>, start: usize, data: &[u8], size: usize)
    requires
        size <= data@.len(),
        start + size <= old(dst)@.len(),
    ensures
        final(dst)@.len() == old(dst)@.len(),
        forall|i: int| 0 <= i < final(dst)@.len() ==> #[trigger] final(dst)@[i] == if start <= i < start + size {
            data@[i - start]
        } else {
            old(dst)@[i]
        },
{
    let dl = dst.len();
    let mut k: usize = 0;
    while k < size
        invariant
            k <= size,
            dl == dst@.len(),
            size <= data@.len(),
            start + size <= old(dst)@.len(),
            dst@.len() == old(dst)@.len(),
            forall|i: int| 0 <= i < dst@.len() ==> #[trigger] dst@[i] == if start <= i < start + k {
                data@[i - start]
            } else {
                old(dst)@[i]
            },
        decreases size - k,
    {
        dst.set(start + k, data[k]);
        k += 1;
    }
}

impl Memory {
    /// A memory just built for `extra_ram_banks` groups of extra RAM
    /// (capped at `MAX_EXTRA_RAM_GROUPS`): everything cleared, both ROMs
    /// enabled, none loaded, the standard configuration.
    pub open spec fn fresh(self, extra_ram_banks: u32) -> bool {
        &&& self.wf()
        &&& self.extra_ram_banks == if extra_ram_banks > MAX_EXTRA_RAM_GROUPS { MAX_EXTRA_RAM_GROUPS } else { extra_ram_banks }
        &&& forall|i: int| 0 <= i < self.ram@.len() ==> #[trigger] self.ram@[i] == 0
        &&& forall|i: int| 0 <= i < self.rom_low@.len() ==> #[trigger] self.rom_low@[i] == 0
        &&& forall|i: int| 0 <= i < self.rom_high@.len() ==> #[trigger] self.rom_high@[i] == 0
        &&& forall|r: int| 0 <= r < 256 ==> !#[trigger] self.rom_high_present[r]
        &&& self.rom_low_enabled
        &&& self.rom_high_enabled
        &&& self.selected_high_rom == 0
        &&& self.ram_config == 0
        &&& self.extended_page1_bank is None
    }

    /// A cleared memory: 128 KB plus `extra_ram_banks` groups of 64 KB,
    /// capped at `MAX_EXTRA_RAM_GROUPS` (better run with the largest usable
    /// value than refuse to start on a too generous configuration). Both
    /// ROMs enabled, none loaded.
    pub fn new(extra_ram_banks: u32) -> (m: Memory)
        ensures
            m.fresh(extra_ram_banks),
            m.wf(),
            m.extra_ram_banks == if extra_ram_banks > MAX_EXTRA_RAM_GROUPS { MAX_EXTRA_RAM_GROUPS } else { extra_ram_banks },
            forall|i: int| 0 <= i < m.ram@.len() ==> m.ram@[i] == 0,
            forall|i: int| 0 <= i < m.rom_low@.len() ==> m.rom_low@[i] == 0,
            forall|i: int| 0 <= i < m.rom_high@.len() ==> m.rom_high@[i] == 0,
            forall|r: int| 0 <= r < 256 ==> !m.rom_high_present[r],
            m.rom_low_enabled,
            m.rom_high_enabled,
            m.selected_high_rom == 0,
            m.ram_config == 0,
            m.extended_page1_bank is None,
    {
        let extra_ram_banks = if extra_ram_banks > MAX_EXTRA_RAM_GROUPS { MAX_EXTRA_RAM_GROUPS } else { extra_ram_banks };
        let ram_size = (STANDARD_RAM_BANKS + extra_ram_banks as usize * 4) * BANK_SIZE;
        let ram = vec![0u8; ram_size];
        let rom_low = vec![0u8; BANK_SIZE];
        // 256 banks of 16 KB: 4 MB.
        let rom_high = vec![0u8; 256 * BANK_SIZE];
        Memory {
            ram,
            rom_low,
            rom_high,
            rom_high_present: [false; 256],
            rom_low_enabled: true,
            rom_high_enabled: true,
            selected_high_rom: 0,
            ram_config: 0,
            extra_ram_banks,
            extended_page1_bank: None,
        }
    }

    /// Loads the lower ROM (at most 16 KB of `data`).
    pub fn load_low_rom(&mut self, data: &[u8])
        requires
            old(self).wf(),
        ensures
            final(self).wf(),
            forall|i: int| 0 <= i < BANK_SIZE ==> #[trigger] final(self).rom_low@[i] == if i < data@.len() {
                data@[i]
            } else {
                old(self).rom_low@[i]
            },
            *final(self) == (Memory { rom_low: final(self).rom_low, ..*old(self) }),
    {
        let size = if data.len() < self.rom_low.len() { data.len() } else { self.rom_low.len() };
        copy_into(&mut self.rom_low, 0, data, size);
    }

    /// Loads upper ROM `index` (at most 16 KB of `data`) and marks it
    /// present.
    pub fn load_high_rom(&mut self, index: u8, data: &[u8])
        requires
            old(self).wf(),
        ensures
            final(self).wf(),
            forall|i: int| 0 <= i < 256 * BANK_SIZE ==> #[trigger] final(self).rom_high@[i] == {
                let start = index as int * BANK_SIZE;
                if start <= i < start + BANK_SIZE && i - start < data@.len() {
                    data@[i - start]
                } else {
                    old(self).rom_high@[i]
                }
            },
            final(self).rom_high_present@ == old(self).rom_high_present@.update(index as int, true),
            *final(self) == (Memory {
                rom_high: final(self).rom_high,
                rom_high_present: final(self).rom_high_present,
                ..*old(self)
            }),
    {
        let start = index as usize * BANK_SIZE;
        let size = if data.len() < BANK_SIZE { data.len() } else { BANK_SIZE };
        copy_into(&mut self.rom_high, start, data, size);
        self.rom_high_present[index as usize] = true;
    }

    /// Loads the system ROM: a 32 KB image holds the OS and BASIC together
    /// and is split, its first half going to the lower ROM and its second
    /// half to upper ROM 0 (BASIC); any other image is the OS alone.
    /// Returns whether the image held BASIC too.
    pub fn load_system_rom(&mut self, data: &[u8]) -> (combined: bool)
        requires
            old(self).wf(),
        ensures
            final(self).wf(),
            combined == (data@.len() == 2 * BANK_SIZE),
            forall|i: int| 0 <= i < BANK_SIZE ==> #[trigger] final(self).rom_low@[i] == if i < data@.len() {
                data@[i]
            } else {
                old(self).rom_low@[i]
            },
            combined ==> forall|i: int| 0 <= i < 256 * BANK_SIZE ==> #[trigger] final(self).rom_high@[i] == if i < BANK_SIZE {
                data@[BANK_SIZE + i]
            } else {
                old(self).rom_high@[i]
            },
            combined ==> final(self).rom_high_present@ == old(self).rom_high_present@.update(0, true),
            !combined ==> final(self).rom_high == old(self).rom_high && final(self).rom_high_present == old(self).rom_high_present,
            *final(self) == (Memory {
                rom_low: final(self).rom_low,
                rom_high: final(self).rom_high,
                rom_high_present: final(self).rom_high_present,
                ..*old(self)
            }),
    {
        if data.len() == 2 * BANK_SIZE {
            let low = vstd::slice::slice_subrange(data, 0, BANK_SIZE);
            let high = vstd::slice::slice_subrange(data, BANK_SIZE, 2 * BANK_SIZE);
            self.load_low_rom(low);
            self.load_high_rom(0, high);
            true
        } else {
            self.load_low_rom(data);
            false
        }
    }

    /// Selects the upper ROM (I/O write to &DF00).
    pub fn select_high_rom(&mut self, index: u8)
        ensures
            *final(self) == (Memory { selected_high_rom: index, ..*old(self) }),
    {
        self.selected_high_rom = index;
    }

    /// Index of the upper ROM really read for the current selection (see
    /// `upper_rom`). Expansion ROMs decode their own number on the bus;
    /// when none answers, the internal BASIC ROM (number 0) stays: an
    /// absent number reads as ROM 0 repeated, not as nothing.
    pub fn effective_high_rom(&self) -> (r: Option<usize>)
        ensures
            r == self.upper_rom(),
    {
        let selected = self.selected_high_rom as usize;
        if self.rom_high_present[selected] {
            Some(selected)
        } else if self.rom_high_present[0] {
            Some(0)
        } else {
            None
        }
    }

    /// Offset in `ram` for a processor address.
    pub fn get_ram_physical_address(&self, address: u16) -> (p: usize)
        requires
            self.wf(),
        ensures
            p as int == self.physical(address),
            p < self.ram@.len(),
    {
        proof { lemma_physical_in_ram(*self, address); }
        let page = (address / 0x4000) as usize;
        let offset = (address % 0x4000) as usize;
        // An installed expansion that took page 1 over wins over the
        // standard configuration, as on the real hardware where it then
        // drives the data bus for that page.
        if page == 1 {
            if let Some(extended) = self.extended_page1_bank {
                return (STANDARD_RAM_BANKS + extended) * BANK_SIZE + offset;
            }
        }
        let bank = self.standard_bank_mapping()[page];
        bank as usize * BANK_SIZE + offset
    }

    /// Page (0..4, 16 KB each) to bank mapping of the current standard RAM
    /// configuration.
    pub fn standard_bank_mapping(&self) -> (m: [u8; 4])
        ensures
            m@ == bank_mapping(self.ram_config),
    {
        let k = self.ram_config & 0x07;
        let m: [u8; 4] = if k == 0 { [0, 1, 2, 3] }
            else if k == 1 { [0, 1, 2, 7] }
            else if k == 2 { [4, 5, 6, 7] }
            else if k == 3 { [0, 3, 2, 7] }
            else if k == 4 { [0, 4, 2, 3] }
            else if k == 5 { [0, 5, 2, 3] }
            else if k == 6 { [0, 6, 2, 3] }
            else { [0, 7, 2, 3] };
        assert(m@ =~= bank_mapping(self.ram_config));
        m
    }

    /// Extended block mapped in page 1, if any.
    pub fn extended_page1_bank(&self) -> (b: Option<usize>)
        ensures
            b == self.extended_page1_bank,
    {
        self.extended_page1_bank
    }

    /// A write to the MMU register (value bits 7-6 set): updates the
    /// standard RAM configuration, and emulates a third-party expansion
    /// when the port and value select an installed block. The 6128's GA
    /// chip decodes only bits 15-14 of the port, so it takes `value & 7`
    /// whatever the exact port in 0x4000-0x7FFF; an expansion also decodes
    /// the low bits of the port's high byte (see `extended_selection`).
    pub fn write_mmu_register(&mut self, port: u16, value: u8)
        requires
            old(self).wf(),
        ensures
            final(self).wf(),
            *final(self) == (Memory {
                ram_config: value & 0x07,
                extended_page1_bank: extended_selection(port, value, old(self).extra_ram_banks),
                ..*old(self)
            }),
    {
        self.ram_config = value & 0x07;
        let port_high = (port >> 8) as u8;
        self.extended_page1_bank = if 0x78 <= port_high && port_high < 0x7F {
            let section = (0x7E - port_high) as u32;
            let bank = ((value >> 3) & 0x07) as u32;
            let block = (value & 0x03) as u32;
            assert((value >> 3) & 0x07 < 8 && value & 0x03 < 4) by (bit_vector);
            let group = section * 8 + bank;
            if group < self.extra_ram_banks { Some((group * 4 + block) as usize) } else { None }
        } else {
            // The standard port (0x7Fxx), or outside the known protocol: no
            // card answers, page 1 follows the base configuration.
            None
        };
    }

    /// Reads RAM directly (the video engine ignores ROM banking).
    pub fn read_ram_byte(&self, address: u16) -> (v: u8)
        requires
            self.wf(),
        ensures
            v == self.ram_value(address),
    {
        let p = self.get_ram_physical_address(address);
        self.ram[p]
    }

    /// Reads a byte of the video RAM: the GA chip reads the first 64 KB
    /// directly, whatever the banking.
    pub fn read_video_ram_byte(&self, address: u16) -> (v: u8)
        requires
            self.wf(),
        ensures
            v == self.ram@[address as int],
    {
        self.ram[address as usize]
    }

    /// Reads a byte under the current banking (RAM and ROMs).
    pub fn read_byte(&self, address: u16) -> (v: u8)
        requires
            self.wf(),
        ensures
            v == self.value(address),
    {
        if address < 0x4000 && self.rom_low_enabled {
            self.rom_low[address as usize]
        } else if address >= 0xC000 && self.rom_high_enabled {
            match self.effective_high_rom() {
                Some(rom) => {
                    let start = rom * BANK_SIZE;
                    let offset = (address - 0xC000) as usize;
                    self.rom_high[start + offset]
                },
                None => 0xFF,
            }
        } else {
            let p = self.get_ram_physical_address(address);
            self.ram[p]
        }
    }

    /// Writes a byte: always to RAM, whatever the ROM banking.
    pub fn write_byte(&mut self, address: u16, value: u8)
        requires
            old(self).wf(),
        ensures
            final(self).wf(),
            old(self).written(address, value, *final(self)),
    {
        let p = self.get_ram_physical_address(address);
        self.ram.set(p, value);
    }
}

/// A write is read back: after writing `value` at `address`, RAM at that
/// address holds `value`, and every address mapped elsewhere keeps its
/// byte.
pub proof fn lemma_read_after_write(m: Memory, address: u16, value: u8, n: Memory, other: u16)
    requires
        m.wf(),
        m.written(address, value, n),
    ensures
        n.wf(),
        n.ram_value(address) == value,
        m.physical(other) != m.physical(address) ==> n.ram_value(other) == m.ram_value(other),
        n.physical(other) == m.physical(other),
{
    lemma_physical_in_ram(m, address);
    lemma_physical_in_ram(m, other);
}

/// An installed expansion block mapped in page 1 lies outside the standard
/// 128 KB: writing through it leaves every standard bank untouched.
pub proof fn lemma_extended_writes_spare_standard_ram(m: Memory, address: u16, value: u8, n: Memory)
    requires
        m.wf(),
        m.extended_page1_bank is Some,
        0x4000 <= address < 0x8000,
        m.written(address, value, n),
    ensures
        n.ram@.subrange(0, (STANDARD_RAM_BANKS * BANK_SIZE) as int)
            == m.ram@.subrange(0, (STANDARD_RAM_BANKS * BANK_SIZE) as int),
{
    lemma_physical_in_ram(m, address);
    assert(m.physical(address) >= STANDARD_RAM_BANKS * BANK_SIZE);
    assert(n.ram@.subrange(0, (STANDARD_RAM_BANKS * BANK_SIZE) as int)
        =~= m.ram@.subrange(0, (STANDARD_RAM_BANKS * BANK_SIZE) as int));
}

} // verus!
