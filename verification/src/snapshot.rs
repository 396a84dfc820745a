//! Snapshots in the `.SNA` format, the exchange format of CPC emulators: a
//! 256-byte header describing the Z80 and the chips, then the RAM. A
//! snapshot taken here loads in another emulator (and the other way
//! round), which lets an exact state be moved and compared from the same
//! point; an assembler that writes `.SNA` files gives an "assemble, load,
//! test" cycle without a disc image.
//!
//! The header follows Caprice32's `t_SNA_header` (256 bytes, packed). Only
//! version 1 is written (registers, GA chip, CRTC, PPI, PSG and RAM): the
//! later versions describe details not modelled identically here.

use crate::bus::CpcBus;
use crate::engine::crtc::Crtc;
use crate::engine::memory::Memory;
use crate::gate_array::GateArrayState;
use crate::machine::{Machine, MAX_CAPTURED_SCANLINES};
use crate::psg::register_mask;
use crate::text::{decimal, push_decimal};
use vstd::prelude::*;
use vstd::string::*;

verus! {

/// Length of the header, before the RAM dump.
pub const HEADER_LEN: usize = 256;

/// RAM saved: the standard 128 KB (extra RAM has no place in the format).
pub const STANDARD_RAM: usize = 131072;

/// CPC model field of version 2 for the 6128, the only machine emulated.
pub const MODEL_6128: u8 = 2;

/// Offsets of the header fields, after Caprice32's `t_SNA_header`.
pub const OFF_VERSION: usize = 0x10;
pub const OFF_AF: usize = 0x11;
pub const OFF_BC: usize = 0x13;
pub const OFF_DE: usize = 0x15;
pub const OFF_HL: usize = 0x17;
pub const OFF_R: usize = 0x19;
pub const OFF_I: usize = 0x1A;
pub const OFF_IFF0: usize = 0x1B;
pub const OFF_IFF1: usize = 0x1C;
pub const OFF_IX: usize = 0x1D;
pub const OFF_IY: usize = 0x1F;
pub const OFF_SP: usize = 0x21;
pub const OFF_PC: usize = 0x23;
pub const OFF_IM: usize = 0x25;
pub const OFF_AFX: usize = 0x26;
pub const OFF_BCX: usize = 0x28;
pub const OFF_DEX: usize = 0x2A;
pub const OFF_HLX: usize = 0x2C;
pub const OFF_GA_PEN: usize = 0x2E;
pub const OFF_GA_INK: usize = 0x2F;
pub const OFF_GA_ROM_CONFIG: usize = 0x40;
pub const OFF_GA_RAM_CONFIG: usize = 0x41;
pub const OFF_CRTC_REG_SELECT: usize = 0x42;
pub const OFF_CRTC_REGISTERS: usize = 0x43;
pub const OFF_UPPER_ROM: usize = 0x55;
pub const OFF_PPI_A: usize = 0x56;
pub const OFF_PPI_B: usize = 0x57;
pub const OFF_PPI_C: usize = 0x58;
pub const OFF_PPI_CONTROL: usize = 0x59;
pub const OFF_PSG_REG_SELECT: usize = 0x5A;
pub const OFF_PSG_REGISTERS: usize = 0x5B;
pub const OFF_RAM_SIZE: usize = 0x6B;
pub const OFF_CPC_MODEL: usize = 0x6D;

/// One bank of Z80 registers (the main one or the alternate one).
#[derive(Clone, Copy, Debug, PartialEq, Eq, Structural)]
pub struct RegisterBank {
    pub a: u8,
    /// The flags as a byte.
    pub f: u8,
    pub b: u8,
    pub c: u8,
    pub d: u8,
    pub e: u8,
    pub h: u8,
    pub l: u8,
}

/// The state of the Z80 a snapshot holds.
#[derive(Clone, Copy, Debug, PartialEq, Eq, Structural)]
pub struct CpuState {
    pub main: RegisterBank,
    pub alt: RegisterBank,
    pub r: u8,
    pub i: u8,
    pub ixh: u8,
    pub ixl: u8,
    pub iyh: u8,
    pub iyl: u8,
    pub sp: u16,
    pub pc: u16,
    pub im: u8,
    pub iff1: bool,
    pub iff2: bool,
}

/// What a snapshot header holds.
#[derive(Clone, Copy, Debug)]
pub struct SnapshotHeader {
    pub version: u8,
    pub cpu: CpuState,
    pub ga_pen: u8,
    /// The 16 inks then the border, as hardware colour numbers.
    pub ga_inks: [u8; 17],
    /// Mode (bits 1-0), lower and upper ROM disabled (bits 2 and 3).
    pub ga_rom_config: u8,
    pub ga_ram_config: u8,
    pub crtc_reg_select: u8,
    pub crtc_registers: [u8; 18],
    pub upper_rom: u8,
    pub ppi_a: u8,
    pub ppi_b: u8,
    pub ppi_c: u8,
    pub ppi_control: u8,
    pub psg_reg_select: u8,
    pub psg_registers: [u8; 16],
    /// Size of the RAM dump in KB.
    pub ram_kb: u16,
    /// Model the snapshot was taken on (version 2 and later): 0 for the
    /// 464, 1 for the 664, 2 for the 6128.
    pub cpc_model: u8,
}

/// Why a snapshot cannot be made or loaded.
#[derive(Clone, Copy, Debug, PartialEq, Eq, Structural)]
pub enum SnapshotError {
    /// The machine has less than the standard 128 KB to save (`bytes`).
    RamTooSmall { bytes: usize },
    /// The data does not start with a snapshot header.
    NotASnapshot,
    /// A RAM size of 0: the memory is stored in compressed MEM0-MEM8
    /// chunks (version 3), which this emulator cannot read.
    ChunkedMemory,
    /// The header announces more RAM (`ram_kb`) than the `present` bytes
    /// that follow it.
    Truncated { ram_kb: u16, present: usize },
    /// The snapshot holds more RAM (`ram_kb`) than the machine has
    /// (`available_kb`).
    RamTooLarge { ram_kb: u16, available_kb: usize },
}

impl SnapshotError {
    /// What the error says to the user.
    pub open spec fn text(self) -> Seq<char> {
        match self {
            SnapshotError::RamTooSmall { bytes } =>
                "RAM too small for a snapshot ("@ + decimal(bytes as nat) + " bytes)"@,
            SnapshotError::NotASnapshot => "not a .SNA snapshot"@,
            SnapshotError::ChunkedMemory => "memory stored in MEM0-MEM8 chunks (compressed v3 snapshot), which this emulator cannot read"@,
            SnapshotError::Truncated { ram_kb, present } =>
                "truncated, header announces "@ + decimal(ram_kb as nat) + " KB of RAM but only "@
                    + decimal(present as nat) + " bytes follow it"@,
            SnapshotError::RamTooLarge { ram_kb, available_kb } =>
                "snapshot holds "@ + decimal(ram_kb as nat) + " KB of RAM, more than this machine has ("@
                    + decimal(available_kb as nat) + " KB)"@,
        }
    }

    /// What the error says of the file `filename`: its name in front, but
    /// for a failed save, which names no file.
    pub open spec fn report_text(self, filename: Seq<char>) -> Seq<char> {
        match self {
            SnapshotError::RamTooSmall { .. } => self.text(),
            SnapshotError::NotASnapshot => filename + " is not a .SNA snapshot"@,
            _ => filename + ": "@ + self.text(),
        }
    }

    /// What the error says to the user.
    pub fn message(&self) -> (m: String)
        ensures
            m@ == self.text(),
    {
        match self {
            SnapshotError::RamTooSmall { bytes } => {
                let mut m = String::from_str("RAM too small for a snapshot (");
                push_decimal(&mut m, *bytes as u64);
                m.append(" bytes)");
                proof {
                    reveal_strlit("RAM too small for a snapshot (");
                    reveal_strlit(" bytes)");
                }
                m
            },
            SnapshotError::NotASnapshot => String::from_str("not a .SNA snapshot"),
            SnapshotError::ChunkedMemory => String::from_str(
                "memory stored in MEM0-MEM8 chunks (compressed v3 snapshot), which this emulator cannot read",
            ),
            SnapshotError::Truncated { ram_kb, present } => {
                let mut m = String::from_str("truncated, header announces ");
                push_decimal(&mut m, *ram_kb as u64);
                m.append(" KB of RAM but only ");
                push_decimal(&mut m, *present as u64);
                m.append(" bytes follow it");
                m
            },
            SnapshotError::RamTooLarge { ram_kb, available_kb } => {
                let mut m = String::from_str("snapshot holds ");
                push_decimal(&mut m, *ram_kb as u64);
                m.append(" KB of RAM, more than this machine has (");
                push_decimal(&mut m, *available_kb as u64);
                m.append(" KB)");
                m
            },
        }
    }

    /// What the error says of the file `filename` (see `report_text`).
    pub fn report(&self, filename: &str) -> (m: String)
        ensures
            m@ == self.report_text(filename@),
    {
        match self {
            SnapshotError::RamTooSmall { .. } => self.message(),
            SnapshotError::NotASnapshot => {
                let mut m = String::from_str(filename);
                m.append(" is not a .SNA snapshot");
                m
            },
            _ => {
                let mut m = String::from_str(filename);
                m.append(": ");
                let t = self.message();
                m.append(t.as_str());
                m
            },
        }
    }
}

/// The signature the header starts with, "MV - SNA".
pub open spec fn signature() -> Seq<u8> {
    seq![0x4Du8, 0x56, 0x20, 0x2D, 0x20, 0x53, 0x4E, 0x41]
}

/// Byte `i` of the header of `h`: register pairs little-endian (the low
/// register first), the two interrupt flip-flops as 0 or 1, unused bytes 0.
pub open spec fn header_byte(h: SnapshotHeader, i: int) -> u8 {
    let c = h.cpu;
    if 0 <= i < 8 { signature()[i] }
    else if i == 0x10 { h.version }
    else if i == 0x11 { c.main.f }
    else if i == 0x12 { c.main.a }
    else if i == 0x13 { c.main.c }
    else if i == 0x14 { c.main.b }
    else if i == 0x15 { c.main.e }
    else if i == 0x16 { c.main.d }
    else if i == 0x17 { c.main.l }
    else if i == 0x18 { c.main.h }
    else if i == 0x19 { c.r }
    else if i == 0x1A { c.i }
    else if i == 0x1B { if c.iff1 { 1 } else { 0 } }
    else if i == 0x1C { if c.iff2 { 1 } else { 0 } }
    else if i == 0x1D { c.ixl }
    else if i == 0x1E { c.ixh }
    else if i == 0x1F { c.iyl }
    else if i == 0x20 { c.iyh }
    else if i == 0x21 { (c.sp % 256) as u8 }
    else if i == 0x22 { (c.sp / 256) as u8 }
    else if i == 0x23 { (c.pc % 256) as u8 }
    else if i == 0x24 { (c.pc / 256) as u8 }
    else if i == 0x25 { c.im }
    else if i == 0x26 { c.alt.f }
    else if i == 0x27 { c.alt.a }
    else if i == 0x28 { c.alt.c }
    else if i == 0x29 { c.alt.b }
    else if i == 0x2A { c.alt.e }
    else if i == 0x2B { c.alt.d }
    else if i == 0x2C { c.alt.l }
    else if i == 0x2D { c.alt.h }
    else if i == 0x2E { h.ga_pen }
    else if 0x2F <= i < 0x40 { h.ga_inks[i - 0x2F] }
    else if i == 0x40 { h.ga_rom_config }
    else if i == 0x41 { h.ga_ram_config }
    else if i == 0x42 { h.crtc_reg_select }
    else if 0x43 <= i < 0x55 { h.crtc_registers[i - 0x43] }
    else if i == 0x55 { h.upper_rom }
    else if i == 0x56 { h.ppi_a }
    else if i == 0x57 { h.ppi_b }
    else if i == 0x58 { h.ppi_c }
    else if i == 0x59 { h.ppi_control }
    else if i == 0x5A { h.psg_reg_select }
    else if 0x5B <= i < 0x6B { h.psg_registers[i - 0x5B] }
    else if i == 0x6B { (h.ram_kb % 256) as u8 }
    else if i == 0x6C { (h.ram_kb / 256) as u8 }
    else if i == 0x6D { h.cpc_model }
    else { 0 }
}

/// The 256 bytes of the header of `h`.
pub open spec fn header_bytes(h: SnapshotHeader) -> Seq<u8> {
    Seq::new(256, |i: int| header_byte(h, i))
}

/// Byte `i` of the header of `h` (see `header_byte`).
fn header_byte_of(h: &SnapshotHeader, i: usize) -> (b: u8)
    requires
        i < 256,
    ensures
        b == header_byte(*h, i as int),
{
    let c = &h.cpu;
    if i < 8 {
        let sig: [u8; 8] = [0x4D, 0x56, 0x20, 0x2D, 0x20, 0x53, 0x4E, 0x41];
        assert(sig@ =~= signature());
        sig[i]
    }
    else if i == 0x10 { h.version }
    else if i == 0x11 { c.main.f }
    else if i == 0x12 { c.main.a }
    else if i == 0x13 { c.main.c }
    else if i == 0x14 { c.main.b }
    else if i == 0x15 { c.main.e }
    else if i == 0x16 { c.main.d }
    else if i == 0x17 { c.main.l }
    else if i == 0x18 { c.main.h }
    else if i == 0x19 { c.r }
    else if i == 0x1A { c.i }
    else if i == 0x1B { if c.iff1 { 1 } else { 0 } }
    else if i == 0x1C { if c.iff2 { 1 } else { 0 } }
    else if i == 0x1D { c.ixl }
    else if i == 0x1E { c.ixh }
    else if i == 0x1F { c.iyl }
    else if i == 0x20 { c.iyh }
    else if i == 0x21 { (c.sp % 256) as u8 }
    else if i == 0x22 { (c.sp / 256) as u8 }
    else if i == 0x23 { (c.pc % 256) as u8 }
    else if i == 0x24 { (c.pc / 256) as u8 }
    else if i == 0x25 { c.im }
    else if i == 0x26 { c.alt.f }
    else if i == 0x27 { c.alt.a }
    else if i == 0x28 { c.alt.c }
    else if i == 0x29 { c.alt.b }
    else if i == 0x2A { c.alt.e }
    else if i == 0x2B { c.alt.d }
    else if i == 0x2C { c.alt.l }
    else if i == 0x2D { c.alt.h }
    else if i == 0x2E { h.ga_pen }
    else if 0x2F <= i && i < 0x40 { h.ga_inks[i - 0x2F] }
    else if i == 0x40 { h.ga_rom_config }
    else if i == 0x41 { h.ga_ram_config }
    else if i == 0x42 { h.crtc_reg_select }
    else if 0x43 <= i && i < 0x55 { h.crtc_registers[i - 0x43] }
    else if i == 0x55 { h.upper_rom }
    else if i == 0x56 { h.ppi_a }
    else if i == 0x57 { h.ppi_b }
    else if i == 0x58 { h.ppi_c }
    else if i == 0x59 { h.ppi_control }
    else if i == 0x5A { h.psg_reg_select }
    else if 0x5B <= i && i < 0x6B { h.psg_registers[i - 0x5B] }
    else if i == 0x6B { (h.ram_kb % 256) as u8 }
    else if i == 0x6C { (h.ram_kb / 256) as u8 }
    else if i == 0x6D { h.cpc_model }
    else { 0 }
}

/// The 256-byte header of `h`.
pub fn encode_header(h: &SnapshotHeader) -> (v: Vec<u8>)
    ensures
        v@ == header_bytes(*h),
{
    let mut v: Vec<u8> = Vec::new();
    let mut i: usize = 0;
    while i < HEADER_LEN
        invariant
            i <= HEADER_LEN,
            v@ == header_bytes(*h).take(i as int),
        decreases HEADER_LEN - i,
    {
        v.push(header_byte_of(h, i));
        proof {
            assert(v@ =~= header_bytes(*h).take(i + 1));
        }
        i += 1;
    }
    proof {
        assert(v@ =~= header_bytes(*h));
    }
    v
}

/// Little-endian 16-bit value at `o` in `d`.
pub open spec fn word_at(d: Seq<u8>, o: int) -> u16 {
    (d[o] as int + 256 * d[o + 1] as int) as u16
}

/// `h` holds the fields of the header at the start of `d` (at least 256
/// bytes), the RAM size rounded down to a multiple of 64 KB: the real
/// granularity of the format (64 or 128 KB in practice), which also
/// discards fanciful values.
pub open spec fn decodes_to(d: Seq<u8>, h: SnapshotHeader) -> bool {
    let c = h.cpu;
    &&& h.version == d[0x10]
    &&& c.main == (RegisterBank { f: d[0x11], a: d[0x12], c: d[0x13], b: d[0x14], e: d[0x15], d: d[0x16], l: d[0x17], h: d[0x18] })
    &&& c.alt == (RegisterBank { f: d[0x26], a: d[0x27], c: d[0x28], b: d[0x29], e: d[0x2A], d: d[0x2B], l: d[0x2C], h: d[0x2D] })
    &&& c.r == d[0x19]
    &&& c.i == d[0x1A]
    &&& c.iff1 == (d[0x1B] != 0)
    &&& c.iff2 == (d[0x1C] != 0)
    &&& c.ixl == d[0x1D]
    &&& c.ixh == d[0x1E]
    &&& c.iyl == d[0x1F]
    &&& c.iyh == d[0x20]
    &&& c.sp == word_at(d, 0x21)
    &&& c.pc == word_at(d, 0x23)
    &&& c.im == d[0x25]
    &&& h.ga_pen == d[0x2E]
    &&& forall|k: int| 0 <= k < 17 ==> #[trigger] h.ga_inks[k] == d[0x2F + k]
    &&& h.ga_rom_config == d[0x40]
    &&& h.ga_ram_config == d[0x41]
    &&& h.crtc_reg_select == d[0x42]
    &&& forall|k: int| 0 <= k < 18 ==> #[trigger] h.crtc_registers[k] == d[0x43 + k]
    &&& h.upper_rom == d[0x55]
    &&& h.ppi_a == d[0x56]
    &&& h.ppi_b == d[0x57]
    &&& h.ppi_c == d[0x58]
    &&& h.ppi_control == d[0x59]
    &&& h.psg_reg_select == d[0x5A]
    &&& forall|k: int| 0 <= k < 16 ==> #[trigger] h.psg_registers[k] == d[0x5B + k]
    &&& h.ram_kb == word_at(d, 0x6B) & !0x3Fu16
    &&& h.cpc_model == d[0x6D]
}

/// Whether `d` starts with a snapshot header: long enough, and the
/// signature.
pub open spec fn has_signature(d: Seq<u8>) -> bool {
    d.len() >= HEADER_LEN && d.subrange(0, 8) == signature()
}

/// RAM size announced by the header of `d`, in KB, rounded down to a
/// multiple of 64.
pub open spec fn announced_kb(d: Seq<u8>) -> u16 {
    word_at(d, 0x6B) & !0x3Fu16
}

/// Reads the header of a snapshot `data` (header then RAM). Refused: data
/// without the signature; a RAM size of 0 (the memory is in MEM0-MEM8
/// chunks of a compressed version 3, which would otherwise load as an
/// empty memory); less RAM than announced. Blocks following the RAM
/// (version 3) are skipped, as the format lets a reader do.
pub fn decode(data: &[u8]) -> (r: Result<SnapshotHeader, SnapshotError>)
    ensures
        !has_signature(data@) ==> r == Err::<SnapshotHeader, SnapshotError>(SnapshotError::NotASnapshot),
        has_signature(data@) && announced_kb(data@) == 0 ==> r == Err::<SnapshotHeader, SnapshotError>(SnapshotError::ChunkedMemory),
        has_signature(data@) && announced_kb(data@) != 0 && data@.len() < HEADER_LEN + announced_kb(data@) * 1024
            ==> r == Err::<SnapshotHeader, SnapshotError>(SnapshotError::Truncated {
                ram_kb: announced_kb(data@) as u16, present: (data@.len() - HEADER_LEN) as usize }),
        r matches Ok(h) ==> decodes_to(data@, h) && data@.len() >= HEADER_LEN + h.ram_kb * 1024 && h.ram_kb != 0,
        has_signature(data@) && announced_kb(data@) != 0 && data@.len() >= HEADER_LEN + announced_kb(data@) * 1024 ==> r is Ok,
{
    if data.len() < HEADER_LEN {
        return Err(SnapshotError::NotASnapshot);
    }
    let sig: [u8; 8] = [0x4D, 0x56, 0x20, 0x2D, 0x20, 0x53, 0x4E, 0x41];
    assert(sig@ =~= signature());
    let mut k: usize = 0;
    while k < 8
        invariant
            k <= 8,
            data@.len() >= HEADER_LEN,
            sig@ == signature(),
            forall|j: int| 0 <= j < k ==> data@[j] == signature()[j],
        decreases 8 - k,
    {
        if data[k] != sig[k] {
            assert(data@.subrange(0, 8)[k as int] != signature()[k as int]);
            return Err(SnapshotError::NotASnapshot);
        }
        k += 1;
    }
    assert(data@.subrange(0, 8) =~= signature());
    let ram_kb: u16 = (data[0x6B] as u16 + 256 * data[0x6C] as u16) & !0x3Fu16;
    if ram_kb == 0 {
        return Err(SnapshotError::ChunkedMemory);
    }
    if data.len() < HEADER_LEN + ram_kb as usize * 1024 {
        return Err(SnapshotError::Truncated { ram_kb, present: data.len() - HEADER_LEN });
    }
    let mut ga_inks = [0u8; 17];
    let mut i: usize = 0;
    while i < 17
        invariant
            i <= 17,
            data@.len() >= HEADER_LEN,
            forall|j: int| 0 <= j < i ==> #[trigger] ga_inks[j] == data@[0x2F + j],
        decreases 17 - i,
    {
        ga_inks[i] = data[OFF_GA_INK + i];
        i += 1;
    }
    let mut crtc_registers = [0u8; 18];
    let mut i: usize = 0;
    while i < 18
        invariant
            i <= 18,
            data@.len() >= HEADER_LEN,
            forall|j: int| 0 <= j < i ==> #[trigger] crtc_registers[j] == data@[0x43 + j],
        decreases 18 - i,
    {
        crtc_registers[i] = data[OFF_CRTC_REGISTERS + i];
        i += 1;
    }
    let mut psg_registers = [0u8; 16];
    let mut i: usize = 0;
    while i < 16
        invariant
            i <= 16,
            data@.len() >= HEADER_LEN,
            forall|j: int| 0 <= j < i ==> #[trigger] psg_registers[j] == data@[0x5B + j],
        decreases 16 - i,
    {
        psg_registers[i] = data[OFF_PSG_REGISTERS + i];
        i += 1;
    }
    let cpu = CpuState {
        main: RegisterBank { f: data[0x11], a: data[0x12], c: data[0x13], b: data[0x14], e: data[0x15], d: data[0x16], l: data[0x17], h: data[0x18] },
        alt: RegisterBank { f: data[0x26], a: data[0x27], c: data[0x28], b: data[0x29], e: data[0x2A], d: data[0x2B], l: data[0x2C], h: data[0x2D] },
        r: data[OFF_R],
        i: data[OFF_I],
        iff1: data[OFF_IFF0] != 0,
        iff2: data[OFF_IFF1] != 0,
        ixl: data[OFF_IX],
        ixh: data[OFF_IX + 1],
        iyl: data[OFF_IY],
        iyh: data[OFF_IY + 1],
        sp: data[OFF_SP] as u16 + 256 * data[OFF_SP + 1] as u16,
        pc: data[OFF_PC] as u16 + 256 * data[OFF_PC + 1] as u16,
        im: data[OFF_IM],
    };
    Ok(SnapshotHeader {
        version: data[OFF_VERSION],
        cpu,
        ga_pen: data[OFF_GA_PEN],
        ga_inks,
        ga_rom_config: data[OFF_GA_ROM_CONFIG],
        ga_ram_config: data[OFF_GA_RAM_CONFIG],
        crtc_reg_select: data[OFF_CRTC_REG_SELECT],
        crtc_registers,
        upper_rom: data[OFF_UPPER_ROM],
        ppi_a: data[OFF_PPI_A],
        ppi_b: data[OFF_PPI_B],
        ppi_c: data[OFF_PPI_C],
        ppi_control: data[OFF_PPI_CONTROL],
        psg_reg_select: data[OFF_PSG_REG_SELECT],
        psg_registers,
        ram_kb,
        cpc_model: data[OFF_CPC_MODEL],
    })
}

/// The header describing `cpu` and the chips of `bus`, with `ram_kb` of
/// RAM. The GA chip's configuration byte holds the mode in bits 1-0 and
/// the lower and upper ROMs in bits 2 and 3, set for a DISABLED ROM (the
/// reverse of the memory's flags).
pub open spec fn captured(cpu: CpuState, bus: CpcBus, ram_kb: u16) -> SnapshotHeader {
    let ga = bus.gate_array;
    let mem = bus.memory;
    SnapshotHeader {
        version: 1,
        cpu,
        ga_pen: ga.selected_pen,
        ga_inks: ga.palette,
        ga_rom_config: (ga.video_mode & 0x03) | (if mem.rom_low_enabled { 0u8 } else { 0x04u8 })
            | (if mem.rom_high_enabled { 0u8 } else { 0x08u8 }),
        ga_ram_config: mem.ram_config,
        crtc_reg_select: bus.crtc.selected_register,
        crtc_registers: bus.crtc.registers,
        upper_rom: mem.selected_high_rom,
        ppi_a: bus.ppi.port_a,
        ppi_b: bus.ppi.port_b_input,
        ppi_c: bus.ppi.port_c,
        ppi_control: bus.ppi.control_register,
        psg_reg_select: bus.psg.selected_register,
        psg_registers: bus.psg.registers,
        ram_kb,
        cpc_model: 0,
    }
}

/// The header describing the current state (see `captured`).
pub fn capture(cpu: &CpuState, bus: &CpcBus, ram_kb: u16) -> (h: SnapshotHeader)
    ensures
        h == captured(*cpu, *bus, ram_kb),
{
    let ga = &bus.gate_array;
    let mem = &bus.memory;
    let rom_config: u8 = (ga.video_mode & 0x03) | (if mem.rom_low_enabled { 0u8 } else { 0x04u8 })
        | (if mem.rom_high_enabled { 0u8 } else { 0x08u8 });
    SnapshotHeader {
        version: 1,
        cpu: *cpu,
        ga_pen: ga.selected_pen,
        ga_inks: ga.palette,
        ga_rom_config: rom_config,
        ga_ram_config: mem.ram_config,
        crtc_reg_select: bus.crtc.selected_register,
        crtc_registers: bus.crtc.registers,
        upper_rom: mem.selected_high_rom,
        ppi_a: bus.ppi.port_a,
        ppi_b: bus.ppi.port_b_input,
        ppi_c: bus.ppi.port_c,
        ppi_control: bus.ppi.control_register,
        psg_reg_select: bus.psg.selected_register,
        psg_registers: bus.psg.registers,
        ram_kb,
        cpc_model: 0,
    }
}

/// The bytes of a snapshot of `cpu` and `bus`: the header, then the
/// standard 128 KB of RAM (extra RAM has no place in the format and would
/// make a file nobody reads back correctly). A machine with less RAM has
/// nothing to save.
pub fn save_bytes(cpu: &CpuState, bus: &CpcBus) -> (r: Result<Vec<u8>, SnapshotError>)
    ensures
        bus.memory.ram@.len() < STANDARD_RAM ==> r == Err::<Vec<u8>, SnapshotError>(SnapshotError::RamTooSmall {
            bytes: bus.memory.ram@.len() as usize }),
        bus.memory.ram@.len() >= STANDARD_RAM ==> (r matches Ok(v)
            && v@ == header_bytes(captured(*cpu, *bus, 128)) + bus.memory.ram@.take(STANDARD_RAM as int)),
{
    if bus.memory.ram.len() < STANDARD_RAM {
        return Err(SnapshotError::RamTooSmall { bytes: bus.memory.ram.len() });
    }
    let h = capture(cpu, bus, 128);
    let mut v = encode_header(&h);
    let ghost head = v@;
    let mut k: usize = 0;
    while k < STANDARD_RAM
        invariant
            k <= STANDARD_RAM,
            STANDARD_RAM <= bus.memory.ram@.len(),
            v@ == head + bus.memory.ram@.take(k as int),
        decreases STANDARD_RAM - k,
    {
        v.push(bus.memory.ram[k]);
        proof {
            assert(v@ =~= head + bus.memory.ram@.take(k + 1));
        }
        k += 1;
    }
    Ok(v)
}


/// An OUT to the GA chip and the MMU (&7Fxx), which reaches no other chip.
fn out_gate_array(bus: &mut CpcBus, value: u8)
    requires
        old(bus).wf(),
    ensures
        final(bus).wf(),
        old(bus).gate_array.register_written(value, old(bus).memory.rom_low_enabled, old(bus).memory.rom_high_enabled,
            final(bus).gate_array, final(bus).memory.rom_low_enabled, final(bus).memory.rom_high_enabled),
        final(bus).memory.ram_config == if value & 0xC0 == 0xC0 { value & 0x07 } else { old(bus).memory.ram_config },
        final(bus).memory.ram@ == old(bus).memory.ram@,
        final(bus).memory.selected_high_rom == old(bus).memory.selected_high_rom,
        final(bus).crtc == old(bus).crtc,
        final(bus).ppi == old(bus).ppi,
        final(bus).psg == old(bus).psg,
{
    let port: u16 = 0x7F00;
    assert(port & 0xC000 == 0x4000 && port & 0x4000 != 0 && port & 0x0800 != 0 && port & 0x2000 != 0
        && port & 0x0480 != 0) by (bit_vector)
        requires port == 0x7F00;
    bus.write_io(port, value);
}

/// An OUT selecting a CRTC register (&BCxx), which reaches no other chip.
fn out_crtc_select(bus: &mut CpcBus, value: u8)
    requires
        old(bus).wf(),
    ensures
        final(bus).wf(),
        *final(bus) == (CpcBus { crtc: Crtc { selected_register: value & 0x1F, ..old(bus).crtc }, ..*old(bus) }),
{
    let port: u16 = 0xBC00;
    assert(port & 0xC000 != 0x4000 && port & 0x4000 == 0 && (port >> 8) & 0x03 == 0 && port & 0x0800 != 0
        && port & 0x2000 != 0 && port & 0x0480 != 0) by (bit_vector)
        requires port == 0xBC00;
    bus.write_io(port, value);
    proof {
        assert(final(bus).memory =~= old(bus).memory);
    }
}

/// An OUT writing the selected CRTC register (&BDxx), which reaches no
/// other chip.
fn out_crtc_data(bus: &mut CpcBus, value: u8)
    requires
        old(bus).wf(),
    ensures
        final(bus).wf(),
        old(bus).crtc.data_written(value, final(bus).crtc),
        *final(bus) == (CpcBus { crtc: final(bus).crtc, ..*old(bus) }),
{
    let port: u16 = 0xBD00;
    assert(port & 0xC000 != 0x4000 && port & 0x4000 == 0 && (port >> 8) & 0x03 == 1 && port & 0x0800 != 0
        && port & 0x2000 != 0 && port & 0x0480 != 0) by (bit_vector)
        requires port == 0xBD00;
    bus.write_io(port, value);
}

/// An OUT selecting the upper ROM (&DFxx), which reaches no other chip.
fn out_upper_rom(bus: &mut CpcBus, value: u8)
    requires
        old(bus).wf(),
    ensures
        final(bus).wf(),
        *final(bus) == (CpcBus { memory: Memory { selected_high_rom: value, ..old(bus).memory }, ..*old(bus) }),
{
    let port: u16 = 0xDF00;
    assert(port & 0xC000 != 0x4000 && port & 0x4000 != 0 && port & 0x0800 != 0 && port & 0x2000 == 0
        && port & 0x0480 != 0) by (bit_vector)
        requires port == 0xDF00;
    bus.write_io(port, value);
}

/// An OUT to the PPI: port A (&F4xx, `reg` 0), port C (&F6xx, `reg` 2) or
/// the control register (&F7xx, `reg` 3), which reaches no other chip but
/// the PSG and the tape motor behind it. Port B, an input, keeps its
/// value.
fn out_ppi(bus: &mut CpcBus, reg: u16, value: u8)
    requires
        old(bus).wf(),
        reg == 0 || reg == 2 || reg == 3,
    ensures
        final(bus).wf(),
        final(bus).ppi.port_b_input == old(bus).ppi.port_b_input,
        reg == 0 ==> final(bus).ppi.port_a == value,
        reg == 2 ==> final(bus).ppi.port_c == value,
        reg == 2 ==> final(bus).ppi.port_a == old(bus).ppi.port_a,
        reg == 3 ==> final(bus).ppi.control_register == if value & 0x80 != 0 { value } else { old(bus).ppi.control_register },
        reg != 3 ==> final(bus).ppi.control_register == old(bus).ppi.control_register,
        final(bus).gate_array == old(bus).gate_array,
        final(bus).memory == old(bus).memory,
        final(bus).crtc == old(bus).crtc,
{
    let port: u16 = 0xF400 | (reg << 8);
    assert(port & 0xC000 != 0x4000 && port & 0x4000 != 0 && port & 0x0800 == 0 && port & 0x2000 != 0
        && port & 0x0480 != 0 && (port >> 8) & 0x03 == reg) by (bit_vector)
        requires port == 0xF400 | (reg << 8), reg == 0 || reg == 2 || reg == 3;
    bus.write_io(port, value);
}

/// What `restore` sets from the header `h` and the snapshot `data`, from
/// machine `o` to machine `n`.
pub open spec fn restored(h: SnapshotHeader, data: Seq<u8>, o: Machine, n: Machine) -> bool {
    let len = h.ram_kb as int * 1024;
    let bus = n.bus;
    &&& bus.memory.ram@ == data.subrange(HEADER_LEN as int, HEADER_LEN + len) + o.bus.memory.ram@.skip(len)
    &&& forall|k: int| 0 <= k < 17 ==> #[trigger] bus.gate_array.palette[k] == h.ga_inks[k] & 0x1F
    &&& bus.gate_array.video_mode == h.ga_rom_config & 0x03
    &&& bus.memory.rom_low_enabled == (h.ga_rom_config & 0x04 == 0)
    &&& bus.memory.rom_high_enabled == (h.ga_rom_config & 0x08 == 0)
    &&& bus.memory.ram_config == h.ga_ram_config & 0x07
    &&& forall|k: int| 0 <= k < 18 ==> #[trigger] bus.crtc.registers[k] == h.crtc_registers[k]
    &&& bus.crtc.selected_register == h.crtc_reg_select & 0x1F
    &&& bus.memory.selected_high_rom == h.upper_rom
    &&& bus.gate_array.selected_pen == if h.ga_pen & 0x10 != 0 { 16 } else { h.ga_pen & 0x0F }
    &&& bus.ppi.port_a == h.ppi_a
    &&& bus.ppi.port_c == h.ppi_c
    &&& bus.ppi.control_register == if h.ppi_control & 0x80 != 0 { h.ppi_control } else { o.bus.ppi.control_register }
    &&& bus.ppi.port_b_input == o.bus.ppi.port_b_input
    &&& forall|k: int| 0 <= k < 16 ==> #[trigger] bus.psg.registers[k] == h.psg_registers[k] & register_mask(k)
    &&& bus.psg.selected_register == h.psg_reg_select
    &&& forall|k: int| 0 <= k < MAX_CAPTURED_SCANLINES ==> #[trigger] n.scanline_states@[k] == (GateArrayState {
        video_mode: bus.gate_array.video_mode,
        palette: bus.gate_array.palette,
    })
}

/// Restores the state of a snapshot whose header `h` was read from `data`
/// (see `decode`) into a machine just power-cycled. The RAM dump is copied;
/// the chips are restored by replaying the I/O writes the program had made
/// (pens and inks, selected pen, ROM then RAM configuration, CRTC
/// registers and selection, upper ROM, PPI control register first (setting
/// the mode clears ports A and C), then ports A and C, PSG registers
/// through their masks): everything derived from those writes falls into
/// place by itself. Port B is left alone: it is an input wired to this
/// machine (the maker's straps that decide the name shown at start-up),
/// not program state. The scanline history is reset to the restored
/// state, so that the first frame shown does not mix palettes. The Z80
/// registers (`h.cpu`) are the front end's to set.
pub fn restore(m: &mut Machine, h: &SnapshotHeader, data: &[u8]) -> (r: Result<(), SnapshotError>)
    requires
        old(m).wf(),
        data@.len() >= HEADER_LEN + h.ram_kb as int * 1024,
    ensures
        final(m).wf(),
        h.ram_kb as int * 1024 > old(m).bus.memory.ram@.len() ==> r == Err::<(), SnapshotError>(SnapshotError::RamTooLarge {
            ram_kb: h.ram_kb, available_kb: (old(m).bus.memory.ram@.len() / 1024) as usize })
            && *final(m) == *old(m),
        h.ram_kb as int * 1024 <= old(m).bus.memory.ram@.len() ==> r is Ok && restored(*h, data@, *old(m), *final(m)),
{
    let len = h.ram_kb as usize * 1024;
    if len > m.bus.memory.ram.len() {
        return Err(SnapshotError::RamTooLarge { ram_kb: h.ram_kb, available_kb: m.bus.memory.ram.len() / 1024 });
    }
    let ghost ram0 = m.bus.memory.ram@;
    let mut k: usize = 0;
    while k < len
        invariant
            k <= len,
            len == h.ram_kb as int * 1024,
            len <= ram0.len(),
            data@.len() >= HEADER_LEN + len,
            m.bus.memory.ram@ == data@.subrange(HEADER_LEN as int, HEADER_LEN + k) + ram0.skip(k as int),
            m.bus.memory == (Memory { ram: m.bus.memory.ram, ..old(m).bus.memory }),
            *m == (Machine { bus: CpcBus { memory: m.bus.memory, ..old(m).bus }, ..*old(m) }),
            old(m).wf(),
            ram0 == old(m).bus.memory.ram@,
        decreases len - k,
    {
        m.bus.memory.ram.set(k, data[HEADER_LEN + k]);
        proof {
            assert(m.bus.memory.ram@ =~= data@.subrange(HEADER_LEN as int, HEADER_LEN + k + 1) + ram0.skip(k + 1));
        }
        k += 1;
    }
    assert(m.wf());
    let ghost ram1 = m.bus.memory.ram@;
    let ghost port_b = m.bus.ppi.port_b_input;

    // GA chip: each ink in two steps, pen selection then colour, as the
    // program would; pen 16 (the border) is selected by bit 4.
    let mut pen: usize = 0;
    while pen < 17
        invariant
            pen <= 17,
            m.wf(),
            m.bus.memory.ram@ == ram1,
            m.bus.ppi.port_b_input == port_b,
            m.bus.ppi == old(m).bus.ppi,
            forall|j: int| 0 <= j < pen ==> #[trigger] m.bus.gate_array.palette[j] == h.ga_inks[j] & 0x1F,
        decreases 17 - pen,
    {
        let select: u8 = if pen == 16 { 0x10 } else { pen as u8 };
        let raw = h.ga_inks[pen];
        let ink = raw & 0x1F;
        assert(ink <= 0x1F) by (bit_vector) requires ink == raw & 0x1F;
        let colour: u8 = 0x40 | ink;
        assert(select >> 6 == 0 && (select & 0x10 != 0) == (select == 0x10) && (select < 16 ==> select & 0x0F == select))
            by (bit_vector) requires select <= 0x10;
        assert(colour >> 6 == 1 && colour & 0x1F == ink) by (bit_vector) requires colour == 0x40 | ink, ink <= 0x1F;
        let ghost before = m.bus.gate_array;
        out_gate_array(&mut m.bus, select);
        assert(m.bus.gate_array.selected_pen == pen);
        let ghost selected = m.bus.gate_array;
        out_gate_array(&mut m.bus, colour);
        proof {
            assert forall|j: int| 0 <= j < pen + 1 implies #[trigger] m.bus.gate_array.palette[j] == h.ga_inks[j] & 0x1F by {
                assert(selected.palette == before.palette);
                if j < pen {
                    assert(before.palette[j] == h.ga_inks[j] & 0x1F);
                }
            }
        }
        pen += 1;
    }
    let ghost palette = m.bus.gate_array.palette;
    let selected_pen = h.ga_pen;
    let pen_value = selected_pen & 0x3F;
    assert(pen_value >> 6 == 0 && pen_value & 0x10 == selected_pen & 0x10 && pen_value & 0x0F == selected_pen & 0x0F)
        by (bit_vector) requires pen_value == selected_pen & 0x3F;
    out_gate_array(&mut m.bus, pen_value);
    let rom_value = 0x80 | (h.ga_rom_config & 0x3F);
    let cfg = h.ga_rom_config;
    assert(rom_value >> 6 == 2 && rom_value & 0x03 == cfg & 0x03 && (rom_value & 0x04 == 0) == (cfg & 0x04 == 0)
        && (rom_value & 0x08 == 0) == (cfg & 0x08 == 0) && rom_value & 0xC0 != 0xC0) by (bit_vector)
        requires rom_value == 0x80 | (cfg & 0x3F);
    out_gate_array(&mut m.bus, rom_value);
    let ram_value = 0xC0 | (h.ga_ram_config & 0x3F);
    let rcfg = h.ga_ram_config;
    assert(ram_value >> 6 == 3 && ram_value & 0xC0 == 0xC0 && ram_value & 0x07 == rcfg & 0x07) by (bit_vector)
        requires ram_value == 0xC0 | (rcfg & 0x3F);
    let ghost configured = m.bus.gate_array;
    out_gate_array(&mut m.bus, ram_value);
    assert(m.bus.gate_array == configured);
    assert(m.bus.gate_array.palette == palette);

    // CRTC.
    let ghost ga = m.bus.gate_array;
    let ghost mem = m.bus.memory;
    let mut reg: usize = 0;
    while reg < 18
        invariant
            reg <= 18,
            m.wf(),
            m.bus.gate_array == ga,
            m.bus.memory == mem,
            m.bus.ppi.port_b_input == port_b,
            m.bus.ppi == old(m).bus.ppi,
            forall|j: int| 0 <= j < reg ==> #[trigger] m.bus.crtc.registers[j] == h.crtc_registers[j],
        decreases 18 - reg,
    {
        let ghost before = m.bus.crtc;
        let sel = reg as u8;
        assert(sel & 0x1F == sel) by (bit_vector) requires sel < 18;
        out_crtc_select(&mut m.bus, sel);
        out_crtc_data(&mut m.bus, h.crtc_registers[reg]);
        proof {
            assert forall|j: int| 0 <= j < reg + 1 implies #[trigger] m.bus.crtc.registers[j] == h.crtc_registers[j] by {
                if j < reg {
                    assert(before.registers[j] == h.crtc_registers[j]);
                }
            }
        }
        reg += 1;
    }
    out_crtc_select(&mut m.bus, h.crtc_reg_select);
    out_upper_rom(&mut m.bus, h.upper_rom);

    // PPI: control register first (see above), port B untouched.
    let ghost crtc = m.bus.crtc;
    let ghost mem2 = m.bus.memory;
    assert(m.bus.ppi == old(m).bus.ppi);
    assert(m.bus.gate_array.selected_pen == if h.ga_pen & 0x10 != 0 { 16 } else { h.ga_pen & 0x0F });
    out_ppi(&mut m.bus, 3, h.ppi_control);
    out_ppi(&mut m.bus, 0, h.ppi_a);
    out_ppi(&mut m.bus, 2, h.ppi_c);
    let ghost ppi = m.bus.ppi;

    // PSG, through the register masks.
    let mut r: usize = 0;
    while r < 16
        invariant
            r <= 16,
            m.wf(),
            m.bus.gate_array == ga,
            m.bus.memory == mem2,
            m.bus.crtc == crtc,
            m.bus.ppi.port_b_input == port_b,
            m.bus.ppi == ppi,
            forall|j: int| 0 <= j < r ==> #[trigger] m.bus.psg.registers[j] == h.psg_registers[j] & register_mask(j),
        decreases 16 - r,
    {
        let ghost before = m.bus.psg;
        m.bus.psg.selected_register = r as u8;
        m.bus.psg.write_current_register(h.psg_registers[r]);
        proof {
            assert forall|j: int| 0 <= j < r + 1 implies #[trigger] m.bus.psg.registers[j] == h.psg_registers[j] & register_mask(j) by {
                if j < r {
                    assert(before.registers[j] == h.psg_registers[j] & register_mask(j));
                }
            }
        }
        r += 1;
    }
    m.bus.psg.selected_register = h.psg_reg_select;

    // Scanline history.
    let state = m.bus.gate_array.state();
    let mut line: usize = 0;
    while line < MAX_CAPTURED_SCANLINES
        invariant
            line <= MAX_CAPTURED_SCANLINES,
            m.wf(),
            state == (GateArrayState { video_mode: m.bus.gate_array.video_mode, palette: m.bus.gate_array.palette }),
            m.bus.gate_array == ga,
            m.bus.memory == mem2,
            m.bus.crtc == crtc,
            m.bus.ppi.port_b_input == port_b,
            m.bus.ppi == ppi,
            m.bus.psg.selected_register == h.psg_reg_select,
            forall|j: int| 0 <= j < 16 ==> #[trigger] m.bus.psg.registers[j] == h.psg_registers[j] & register_mask(j),
            forall|j: int| 0 <= j < line ==> #[trigger] m.scanline_states@[j] == state,
        decreases MAX_CAPTURED_SCANLINES - line,
    {
        m.scanline_states.set(line, state);
        m.scanline_vram.set(line, Vec::new());
        line += 1;
    }
    Ok(())
}

/// A header written by `encode_header` reads back identically, whatever
/// RAM follows it, as long as its RAM size is a whole number of 64 KB
/// blocks.
pub proof fn lemma_header_round_trip(h: SnapshotHeader, rest: Seq<u8>, h2: SnapshotHeader)
    requires
        h.ram_kb % 64 == 0,
        decodes_to(header_bytes(h) + rest, h2),
    ensures
        h2 == h,
{
    broadcast use vstd::array::group_array_axioms;
    let d = header_bytes(h) + rest;
    assert forall|i: int| 0 <= i < 256 implies d[i] == header_byte(h, i) by {}
    assert(word_at(d, 0x21) == h.cpu.sp);
    assert(word_at(d, 0x23) == h.cpu.pc);
    let w = word_at(d, 0x6B);
    assert(w == h.ram_kb);
    assert(w & !0x3Fu16 == w) by (bit_vector)
        requires w % 64 == 0;
    assert(h2.ga_inks =~= h.ga_inks) by {
        assert forall|k: int| 0 <= k < 17 implies h2.ga_inks[k] == h.ga_inks[k] by {
            assert(d[0x2F + k] == header_byte(h, 0x2F + k));
        }
    }
    assert(h2.crtc_registers =~= h.crtc_registers) by {
        assert forall|k: int| 0 <= k < 18 implies h2.crtc_registers[k] == h.crtc_registers[k] by {
            assert(d[0x43 + k] == header_byte(h, 0x43 + k));
        }
    }
    assert(h2.psg_registers =~= h.psg_registers) by {
        assert forall|k: int| 0 <= k < 16 implies h2.psg_registers[k] == h.psg_registers[k] by {
            assert(d[0x5B + k] == header_byte(h, 0x5B + k));
        }
    }
    assert(h2.cpu.iff1 == h.cpu.iff1);
    assert(h2.cpu.iff2 == h.cpu.iff2);
}

/// A snapshot saved from `cpu` and `bus` reads back as the state it was
/// taken from.
pub proof fn lemma_saved_snapshot_reads_back(cpu: CpuState, bus: CpcBus, h2: SnapshotHeader)
    requires
        bus.memory.ram@.len() >= STANDARD_RAM,
        decodes_to(header_bytes(captured(cpu, bus, 128)) + bus.memory.ram@.take(STANDARD_RAM as int), h2),
    ensures
        h2 == captured(cpu, bus, 128),
{
    lemma_header_round_trip(captured(cpu, bus, 128), bus.memory.ram@.take(STANDARD_RAM as int), h2);
}

/// The bits of a ROM configuration byte built from a mode and the two
/// ROM enables.
proof fn lemma_rom_config_bits(m: u8, low: bool, high: bool)
    ensures
        ({
            let c = (m & 0x03) | (if low { 0u8 } else { 0x04u8 }) | (if high { 0u8 } else { 0x08u8 });
            &&& (c & 0x04 != 0) == !low
            &&& (c & 0x08 != 0) == !high
            &&& c & 0x03 == m & 0x03
        }),
{
    assert({
        let c = (m & 0x03) | (if low { 0u8 } else { 0x04u8 }) | (if high { 0u8 } else { 0x08u8 });
        &&& (c & 0x04 != 0) == !low
        &&& (c & 0x08 != 0) == !high
        &&& c & 0x03 == m & 0x03
    }) by (bit_vector);
}

/// The ROM configuration of a snapshot: header byte 0x40 holds the screen
/// mode in bits 1-0, bit 2 set exactly when the lower ROM is disabled and
/// bit 3 set exactly when the upper ROM is disabled (the `.SNA` format's
/// GA ROM configuration, as another emulator reads it). A snapshot saved
/// from a bus (`save_bytes`), read back (`decode`) and restored
/// (`restore`) comes back with the ROM enables and the mode it was taken
/// with.
pub proof fn lemma_saved_rom_configuration(cpu: CpuState, bus: CpcBus, h2: SnapshotHeader, o: Machine, n: Machine)
    requires
        bus.memory.ram@.len() >= STANDARD_RAM,
        decodes_to(header_bytes(captured(cpu, bus, 128)) + bus.memory.ram@.take(STANDARD_RAM as int), h2),
        restored(h2, header_bytes(captured(cpu, bus, 128)) + bus.memory.ram@.take(STANDARD_RAM as int), o, n),
    ensures
        (header_bytes(captured(cpu, bus, 128))[0x40] & 0x04 != 0) == !bus.memory.rom_low_enabled,
        (header_bytes(captured(cpu, bus, 128))[0x40] & 0x08 != 0) == !bus.memory.rom_high_enabled,
        header_bytes(captured(cpu, bus, 128))[0x40] & 0x03 == bus.gate_array.video_mode & 0x03,
        n.bus.memory.rom_low_enabled == bus.memory.rom_low_enabled,
        n.bus.memory.rom_high_enabled == bus.memory.rom_high_enabled,
        n.bus.gate_array.video_mode == bus.gate_array.video_mode & 0x03,
{
    lemma_saved_snapshot_reads_back(cpu, bus, h2);
    lemma_rom_config_bits(bus.gate_array.video_mode, bus.memory.rom_low_enabled, bus.memory.rom_high_enabled);
    assert(header_bytes(captured(cpu, bus, 128))[0x40] == captured(cpu, bus, 128).ga_rom_config);
}

} // verus!
