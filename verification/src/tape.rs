//! Cassette deck: the `.cdt` tape image format (TZX blocks) and the
//! pulse-level replay of the signal the CPC firmware reads on bit 6 of
//! PPI port B.

use crate::text::{decimal, hex_byte, push_decimal, push_hex_byte};
use vstd::prelude::*;
use vstd::string::*;
use std::collections::VecDeque;
use crate::fdc::copy_bytes;

verus! {

/// Z80 cycles (T-states) per millisecond at the 4 MHz clock of the CPC.
/// Pause lengths of the CDT format are in milliseconds; pulse lengths
/// (pilot, sync, bits) are already in T-states in the file, as the CPC
/// community adopted the format (born on the 3.5 MHz Spectrum) unscaled.
pub const TICKS_PER_MS: u32 = 4_000;

/// One block of a CDT file, as far as replay needs it. Pure metadata
/// blocks (text, groups, archive info...) and blocks recognised but not
/// interpreted (CSW, Direct Recording, jumps and loops...) become `Meta`:
/// their content is ignored, but their length is decoded so that the
/// blocks after them stay in step.
pub enum Block {
    /// ID 0x10: Standard Speed Data Block. Fixed timing (the ROM loader's);
    /// the pilot length follows from the first data byte (below 0x80:
    /// header block, 8063 pulses; otherwise data block, 3223 pulses).
    StandardSpeedData { pause_ms: u16, data: Vec<u8> },
    /// ID 0x11: Turbo Speed Data Block, all timings given: the block copy
    /// protections use.
    TurboSpeedData {
        pilot_pulse: u16,
        sync1: u16,
        sync2: u16,
        zero_bit_pulse: u16,
        one_bit_pulse: u16,
        pilot_tone_length: u16,
        used_bits_last_byte: u8,
        pause_ms: u16,
        data: Vec<u8>,
    },
    /// ID 0x12: Pure Tone (a tone alone, no data).
    PureTone { pulse_length: u16, num_pulses: u16 },
    /// ID 0x13: Pulse Sequence (pulses of arbitrary lengths).
    PulseSequence { pulses: Vec<u16> },
    /// ID 0x14: Pure Data Block (data without pilot nor sync).
    PureData {
        zero_bit_pulse: u16,
        one_bit_pulse: u16,
        used_bits_last_byte: u8,
        pause_ms: u16,
        data: Vec<u8>,
    },
    /// ID 0x20: Pause/Stop the Tape. A 0 ms pause stops the tape for good
    /// (used between the stages of a multi-part loader).
    Pause { pause_ms: u16 },
    /// A recognised block with no effect on the signal, skipped.
    Meta,
}

/// A CDT file decoded into its blocks.
pub struct CdtImage {
    pub blocks: Vec<Block>,
}

/// Byte `i` of `data` as an integer.
pub open spec fn at(data: Seq<u8>, i: int) -> int {
    data[i] as int
}

/// Little-endian 16-bit word at `i`.
pub open spec fn le16(data: Seq<u8>, i: int) -> int {
    at(data, i) + 256 * at(data, i + 1)
}

/// Little-endian 24-bit word at `i`.
pub open spec fn le24(data: Seq<u8>, i: int) -> int {
    le16(data, i) + 65536 * at(data, i + 2)
}

/// Little-endian 32-bit word at `i`.
pub open spec fn le32(data: Seq<u8>, i: int) -> int {
    le16(data, i) + 65536 * le16(data, i + 2)
}

/// Where the fixed fields of a block of ID `id` start, relative to the
/// byte after the ID, and how many bytes they take; `None` for an ID the
/// format does not define.
pub open spec fn field_span(id: u8) -> Option<(int, int)> {
    if id == 0x10 { Some((0, 4)) }
    else if id == 0x11 { Some((0, 18)) }
    else if id == 0x12 { Some((0, 4)) }
    else if id == 0x13 { Some((0, 1)) }
    else if id == 0x14 { Some((0, 10)) }
    else if id == 0x15 { Some((5, 3)) }
    else if id == 0x18 || id == 0x19 { Some((0, 4)) }
    else if id == 0x20 { Some((0, 2)) }
    else if id == 0x21 { Some((0, 1)) }
    else if id == 0x22 || id == 0x27 || id == 0x23 || id == 0x24 || id == 0x25 || id == 0x5A { Some((0, 0)) }
    else if id == 0x26 || id == 0x28 || id == 0x32 { Some((0, 2)) }
    else if id == 0x2A || id == 0x2B { Some((0, 4)) }
    else if id == 0x30 || id == 0x33 { Some((0, 1)) }
    else if id == 0x35 { Some((10, 4)) }
    else { None }
}

/// Bytes taken after its fixed fields by a block of ID `id` whose fields
/// start at `pos` (its payload, or the data it announces and is skipped).
pub open spec fn tail_len(id: u8, data: Seq<u8>, pos: int) -> int {
    if id == 0x10 { le16(data, pos + 2) }
    else if id == 0x11 { le24(data, pos + 15) }
    else if id == 0x13 { 2 * at(data, pos) }
    else if id == 0x14 { le24(data, pos + 7) }
    else if id == 0x15 { le24(data, pos + 5) }
    else if id == 0x18 || id == 0x19 || id == 0x2A || id == 0x2B { le32(data, pos) }
    else if id == 0x21 || id == 0x30 { at(data, pos) }
    else if id == 0x23 || id == 0x24 { 2 }
    else if id == 0x5A { 9 }
    else if id == 0x26 { 2 * le16(data, pos) }
    else if id == 0x28 || id == 0x32 { le16(data, pos) }
    else if id == 0x33 { 3 * at(data, pos) }
    else if id == 0x35 { le32(data, pos + 10) }
    else { 0 }
}

/// Whether the tail of the block must lie inside the file: only for the
/// blocks whose tail is read (data blocks and pulse lists); the others are
/// merely skipped.
pub open spec fn tail_read(id: u8) -> bool {
    id == 0x10 || id == 0x11 || id == 0x13 || id == 0x14
}

/// Number of bytes after its ID a block of ID `id` at `pos` takes, when it
/// can be decoded: its ID is defined, its fields lie in the file, and so
/// does its tail when the tail is read.
pub open spec fn block_len(id: u8, data: Seq<u8>, pos: int) -> Option<int> {
    match field_span(id) {
        None => None,
        Some((skip, need)) => {
            if pos + skip + need > data.len() {
                None
            } else {
                let fixed = if id == 0x15 { 8 } else if id == 0x35 { 14 } else { need };
                let tail = tail_len(id, data, pos);
                if tail_read(id) && pos + fixed + tail > data.len() {
                    None
                } else if id == 0x23 || id == 0x24 || id == 0x5A {
                    Some(tail)
                } else {
                    Some(fixed + tail)
                }
            }
        },
    }
}

/// Whether `b` is the block of ID `id` whose fields start at `pos`.
pub open spec fn block_parsed(b: Block, id: u8, data: Seq<u8>, pos: int) -> bool {
    if id == 0x10 {
        b matches Block::StandardSpeedData { pause_ms, data: d }
            && pause_ms == le16(data, pos)
            && d@ == data.subrange(pos + 4, pos + 4 + le16(data, pos + 2))
    } else if id == 0x11 {
        b matches Block::TurboSpeedData {
            pilot_pulse, sync1, sync2, zero_bit_pulse, one_bit_pulse,
            pilot_tone_length, used_bits_last_byte, pause_ms, data: d }
            && pilot_pulse == le16(data, pos)
            && sync1 == le16(data, pos + 2)
            && sync2 == le16(data, pos + 4)
            && zero_bit_pulse == le16(data, pos + 6)
            && one_bit_pulse == le16(data, pos + 8)
            && pilot_tone_length == le16(data, pos + 10)
            && used_bits_last_byte == data[pos + 12]
            && pause_ms == le16(data, pos + 13)
            && d@ == data.subrange(pos + 18, pos + 18 + le24(data, pos + 15))
    } else if id == 0x12 {
        b matches Block::PureTone { pulse_length, num_pulses }
            && pulse_length == le16(data, pos)
            && num_pulses == le16(data, pos + 2)
    } else if id == 0x13 {
        b matches Block::PulseSequence { pulses }
            && pulses@.len() == at(data, pos)
            && forall|i: int| 0 <= i < pulses@.len() ==> #[trigger] pulses@[i] == le16(data, pos + 1 + 2 * i)
    } else if id == 0x14 {
        b matches Block::PureData { zero_bit_pulse, one_bit_pulse, used_bits_last_byte, pause_ms, data: d }
            && zero_bit_pulse == le16(data, pos)
            && one_bit_pulse == le16(data, pos + 2)
            && used_bits_last_byte == data[pos + 4]
            && pause_ms == le16(data, pos + 5)
            && d@ == data.subrange(pos + 10, pos + 10 + le24(data, pos + 7))
    } else if id == 0x20 {
        b matches Block::Pause { pause_ms } && pause_ms == le16(data, pos)
    } else {
        b is Meta
    }
}

/// Message for a read past the end of the file at `offset`.
pub open spec fn truncated_at_text(offset: nat) -> Seq<char> {
    "CDT tronqué à l'octet "@ + decimal(offset)
}

/// Message for `len` bytes of payload announced at `offset` that run past
/// the end of the file.
pub open spec fn truncated_payload_text(len: nat, offset: nat) -> Seq<char> {
    "CDT tronqué : "@ + decimal(len) + " octets attendus à l'offset "@ + decimal(offset)
}

/// Message for the block ID `id`, at `pos`, that the format does not
/// define.
pub open spec fn unknown_block_text(id: u8, pos: nat) -> Seq<char> {
    "Bloc CDT inconnu (ID "@ + hex_byte(id) + " à l'offset "@ + decimal(pos)
        + ") : lecture arrêtée pour ne pas désynchroniser le flux"@
}

/// Why the block of ID `id` whose fields start at `pos` cannot be decoded
/// (when `block_len(id, data, pos)` is none): an ID the format does not
/// define; fixed fields running past the end of the file (reported at the
/// first byte missing, or where they start when that is past the end); a
/// pulse list or a payload that does.
pub open spec fn block_error_text(id: u8, data: Seq<u8>, pos: int) -> Seq<char> {
    match field_span(id) {
        None => unknown_block_text(id, pos as nat),
        Some((skip, need)) => {
            if pos + skip + need > data.len() {
                let start = if pos + skip > usize::MAX { usize::MAX as int } else { pos + skip };
                truncated_at_text((if start > data.len() { start } else { data.len() as int }) as nat)
            } else if id == 0x13 {
                truncated_at_text(data.len())
            } else {
                truncated_payload_text(tail_len(id, data, pos) as nat, (pos + need) as nat)
            }
        },
    }
}

/// Error message for a read past the end of the file.
fn truncated_at(offset: usize) -> (s: String)
    ensures
        s@ == truncated_at_text(offset as nat),
{
    let mut s = String::from_str("CDT tronqué à l'octet ");
    push_decimal(&mut s, offset as u64);
    s
}

/// Error message for a payload running past the end of the file.
fn truncated_payload(len: usize, offset: usize) -> (s: String)
    ensures
        s@ == truncated_payload_text(len as nat, offset as nat),
{
    let mut s = String::from_str("CDT tronqué : ");
    push_decimal(&mut s, len as u64);
    s.append(" octets attendus à l'offset ");
    push_decimal(&mut s, offset as u64);
    s
}

/// Error message for a block ID the format does not define.
fn unknown_block(id: u8, pos: usize) -> (s: String)
    ensures
        s@ == unknown_block_text(id, pos as nat),
{
    let mut s = String::from_str("Bloc CDT inconnu (ID ");
    push_hex_byte(&mut s, id);
    s.append(" à l'offset ");
    push_decimal(&mut s, pos as u64);
    s.append(") : lecture arrêtée pour ne pas désynchroniser le flux");
    s
}

/// The byte at `offset`, or an error past the end of `data`.
fn read_u8(data: &[u8], offset: usize) -> (r: Result<u8, String>)
    ensures
        r is Ok <==> offset < data@.len(),
        r is Ok ==> r->Ok_0 == data@[offset as int],
{
    if offset < data.len() {
        Ok(data[offset])
    } else {
        Err(truncated_at(offset))
    }
}

/// `len` bytes of `data` from `offset`, or an error if they run past its
/// end.
fn read_slice(data: &[u8], offset: usize, len: usize) -> (r: Result<Vec<u8>, String>)
    ensures
        r is Ok <==> offset + len <= data@.len(),
        r is Ok ==> r->Ok_0@ == data@.subrange(offset as int, offset + len),
        r matches Err(e) ==> e@ == truncated_payload_text(len as nat, offset as nat),
{
    let total = data.len();
    match offset.checked_add(len) {
        Some(end) => {
            if end <= total {
                Ok(copy_bytes(data, offset, len))
            } else {
                Err(truncated_payload(len, offset))
            }
        },
        None => Err(truncated_payload(len, offset)),
    }
}


/// Where the fixed fields of a block start and how long they are (see
/// `field_span`).
fn field_span_of(id: u8) -> (r: Option<(usize, usize)>)
    ensures
        match r {
            Some((a, b)) => field_span(id) == Some((a as int, b as int)),
            None => field_span(id) is None,
        },
{
    if id == 0x10 { Some((0, 4)) }
    else if id == 0x11 { Some((0, 18)) }
    else if id == 0x12 { Some((0, 4)) }
    else if id == 0x13 { Some((0, 1)) }
    else if id == 0x14 { Some((0, 10)) }
    else if id == 0x15 { Some((5, 3)) }
    else if id == 0x18 || id == 0x19 { Some((0, 4)) }
    else if id == 0x20 { Some((0, 2)) }
    else if id == 0x21 { Some((0, 1)) }
    else if id == 0x22 || id == 0x27 || id == 0x23 || id == 0x24 || id == 0x25 || id == 0x5A { Some((0, 0)) }
    else if id == 0x26 || id == 0x28 || id == 0x32 { Some((0, 2)) }
    else if id == 0x2A || id == 0x2B { Some((0, 4)) }
    else if id == 0x30 || id == 0x33 { Some((0, 1)) }
    else if id == 0x35 { Some((10, 4)) }
    else { None }
}

/// The 16-bit word at `off`, known to lie in `data`.
fn get16(data: &[u8], off: usize) -> (v: u16)
    requires
        off + 2 <= data@.len(),
    ensures
        v as int == le16(data@, off as int),
{
    let lo = data[off] as u16;
    let hi = data[off + 1] as u16;
    assert(lo | (hi << 8) == lo + 256 * hi) by (bit_vector)
        requires lo < 256, hi < 256;
    lo | (hi << 8)
}

/// The 24-bit word at `off`, known to lie in `data`.
fn get24(data: &[u8], off: usize) -> (v: u32)
    requires
        off + 3 <= data@.len(),
    ensures
        v as int == le24(data@, off as int),
        v < 0x100_0000,
{
    let n = data.len();
    let lo = get16(data, off) as u32;
    let hi = data[off + 2] as u32;
    assert(lo | (hi << 16) == lo + 65536 * hi) by (bit_vector)
        requires lo < 65536, hi < 256;
    lo | (hi << 16)
}

/// The 32-bit word at `off`, known to lie in `data`.
fn get32(data: &[u8], off: usize) -> (v: u32)
    requires
        off + 4 <= data@.len(),
    ensures
        v as int == le32(data@, off as int),
{
    let n = data.len();
    let lo = get16(data, off) as u32;
    let hi = get16(data, off + 2) as u32;
    assert(lo | (hi << 16) == lo + 65536 * hi) by (bit_vector)
        requires lo < 65536, hi < 65536;
    lo | (hi << 16)
}

/// The `count` 16-bit pulse lengths of a Pulse Sequence starting at `off`.
fn read_pulses(data: &[u8], off: usize, count: usize) -> (v: Vec<u16>)
    requires
        off + 2 * count <= data@.len(),
    ensures
        v@.len() == count,
        forall|i: int| 0 <= i < count ==> #[trigger] v@[i] == le16(data@, off + 2 * i),
{
    let n = data.len();
    let mut v: Vec<u16> = Vec::with_capacity(count);
    let mut i: usize = 0;
    while i < count
        invariant
            i <= count,
            n == data@.len(),
            off + 2 * count <= data@.len(),
            v@.len() == i,
            forall|k: int| 0 <= k < i ==> #[trigger] v@[k] == le16(data@, off + 2 * k),
        decreases count - i,
    {
        v.push(get16(data, off + 2 * i));
        i += 1;
    }
    v
}

impl CdtImage {
    /// Decodes the block of ID `id` (already read) whose fields start at
    /// `pos`: the block, and the number of bytes it takes after its ID.
    pub fn parse_block(id: u8, data: &[u8], pos: usize) -> (r: Result<(Block, u64), String>)
        requires
            pos <= data@.len(),
        ensures
            r is Ok <==> block_len(id, data@, pos as int) is Some,
            r matches Ok((b, c)) ==> block_len(id, data@, pos as int) == Some(c as int)
                && block_parsed(b, id, data@, pos as int),
            field_span(id) is None ==> (r matches Err(e) && e@ == unknown_block_text(id, pos as nat)),
            r matches Err(e) ==> e@ == block_error_text(id, data@, pos as int),
    {
        let (skip, need) = match field_span_of(id) {
            Some(span) => span,
            None => {
                return Err(unknown_block(id, pos));
            },
        };
        let len = data.len();
        let start = pos.saturating_add(skip);
        if start > len || len - start < need {
            return Err(truncated_at(if start > len { start } else { len }));
        }
        if id == 0x10 {
            let pause_ms = get16(data, pos);
            let length = get16(data, pos + 2) as usize;
            let payload = match read_slice(data, pos + 4, length) {
                Ok(p) => p,
                Err(e) => {
                    return Err(e);
                },
            };
            Ok((Block::StandardSpeedData { pause_ms, data: payload }, 4 + length as u64))
        } else if id == 0x11 {
            let pilot_pulse = get16(data, pos);
            let sync1 = get16(data, pos + 2);
            let sync2 = get16(data, pos + 4);
            let zero_bit_pulse = get16(data, pos + 6);
            let one_bit_pulse = get16(data, pos + 8);
            let pilot_tone_length = get16(data, pos + 10);
            let used_bits_last_byte = data[pos + 12];
            let pause_ms = get16(data, pos + 13);
            let length = get24(data, pos + 15) as usize;
            let payload = match read_slice(data, pos + 18, length) {
                Ok(p) => p,
                Err(e) => {
                    return Err(e);
                },
            };
            Ok((Block::TurboSpeedData {
                pilot_pulse,
                sync1,
                sync2,
                zero_bit_pulse,
                one_bit_pulse,
                pilot_tone_length,
                used_bits_last_byte,
                pause_ms,
                data: payload,
            }, 18 + length as u64))
        } else if id == 0x12 {
            let pulse_length = get16(data, pos);
            let num_pulses = get16(data, pos + 2);
            Ok((Block::PureTone { pulse_length, num_pulses }, 4))
        } else if id == 0x13 {
            let count = data[pos] as usize;
            if len - (pos + 1) < 2 * count {
                return Err(truncated_at(len));
            }
            let pulses = read_pulses(data, pos + 1, count);
            Ok((Block::PulseSequence { pulses }, 1 + 2 * count as u64))
        } else if id == 0x14 {
            let zero_bit_pulse = get16(data, pos);
            let one_bit_pulse = get16(data, pos + 2);
            let used_bits_last_byte = data[pos + 4];
            let pause_ms = get16(data, pos + 5);
            let length = get24(data, pos + 7) as usize;
            let payload = match read_slice(data, pos + 10, length) {
                Ok(p) => p,
                Err(e) => {
                    return Err(e);
                },
            };
            Ok((Block::PureData { zero_bit_pulse, one_bit_pulse, used_bits_last_byte, pause_ms, data: payload },
                10 + length as u64))
        } else if id == 0x15 {
            // Direct Recording: raw samples, not interpreted, skipped.
            let length = get24(data, pos + 5) as u64;
            Ok((Block::Meta, 8 + length))
        } else if id == 0x18 || id == 0x19 || id == 0x2A || id == 0x2B {
            // CSW Recording, Generalized Data, Stop if 48K, Set Signal
            // Level: whole length on 4 bytes, not interpreted.
            let length = get32(data, pos) as u64;
            Ok((Block::Meta, 4 + length))
        } else if id == 0x20 {
            let pause_ms = get16(data, pos);
            Ok((Block::Pause { pause_ms }, 2))
        } else if id == 0x21 || id == 0x30 {
            let length = data[pos] as u64;
            Ok((Block::Meta, 1 + length))
        } else if id == 0x22 || id == 0x25 || id == 0x27 {
            Ok((Block::Meta, 0))
        } else if id == 0x23 || id == 0x24 {
            Ok((Block::Meta, 2))
        } else if id == 0x26 {
            let count = get16(data, pos) as u64;
            Ok((Block::Meta, 2 + count * 2))
        } else if id == 0x28 || id == 0x32 {
            let length = get16(data, pos) as u64;
            Ok((Block::Meta, 2 + length))
        } else if id == 0x33 {
            let count = data[pos] as u64;
            Ok((Block::Meta, 1 + count * 3))
        } else if id == 0x35 {
            let length = get32(data, pos + 10) as u64;
            Ok((Block::Meta, 14 + length))
        } else {
            // 0x5A: "glue" block.
            Ok((Block::Meta, 9))
        }
    }
}


/// "ZXTape!" followed by 0x1A: the first 8 bytes of every CDT file.
pub open spec fn cdt_signature() -> Seq<u8> {
    seq![0x5Au8, 0x58, 0x54, 0x61, 0x70, 0x65, 0x21, 0x1A]
}

/// Whether the blocks from `pos` to the end of `data` can all be decoded,
/// each starting with its ID byte.
pub open spec fn blocks_ok(data: Seq<u8>, pos: int) -> bool
    decreases data.len() - pos,
{
    if pos < 0 || pos >= data.len() {
        true
    } else {
        match block_len(data[pos], data, pos + 1) {
            None => false,
            Some(c) => {
                let next = pos + 1 + c;
                if next >= data.len() || c < 0 { true } else { blocks_ok(data, next) }
            },
        }
    }
}

/// Why the blocks from `pos` on cannot all be decoded: the error of the
/// first that cannot (see `block_error_text`).
pub open spec fn blocks_error(data: Seq<u8>, pos: int) -> Seq<char>
    decreases data.len() - pos,
{
    if pos < 0 || pos >= data.len() {
        Seq::empty()
    } else {
        match block_len(data[pos], data, pos + 1) {
            None => block_error_text(data[pos], data, pos + 1),
            Some(c) => {
                let next = pos + 1 + c;
                if next >= data.len() || c < 0 { Seq::empty() } else { blocks_error(data, next) }
            },
        }
    }
}

/// The message for a file without the CDT signature.
pub open spec fn no_cdt_signature_text() -> Seq<char> {
    "Signature CDT absente ou invalide (attendu \"ZXTape!\")"@
}

/// Whether `bs` are the blocks decoded from `pos` to the end of `data`.
pub open spec fn blocks_decoded(bs: Seq<Block>, data: Seq<u8>, pos: int) -> bool
    decreases data.len() - pos,
{
    if pos < 0 || pos >= data.len() {
        bs.len() == 0
    } else {
        &&& bs.len() > 0
        &&& match block_len(data[pos], data, pos + 1) {
            None => false,
            Some(c) => {
                let next = pos + 1 + c;
                &&& block_parsed(bs[0], data[pos], data, pos + 1)
                &&& if next >= data.len() || c < 0 { bs.len() == 1 } else { blocks_decoded(bs.drop_first(), data, next) }
            },
        }
    }
}

/// Whether `data` is a CDT file whose blocks all decode: its signature,
/// two version bytes, then the blocks.
pub open spec fn cdt_ok(data: Seq<u8>) -> bool {
    &&& data.len() >= 10
    &&& data.subrange(0, 8) == cdt_signature()
    &&& blocks_ok(data, 10)
}

/// Whether `data` starts with the CDT signature.
fn has_cdt_signature(data: &[u8]) -> (b: bool)
    requires
        data@.len() >= 8,
    ensures
        b == (data@.subrange(0, 8) == cdt_signature()),
{
    let sig: [u8; 8] = [0x5A, 0x58, 0x54, 0x61, 0x70, 0x65, 0x21, 0x1A];
    let mut i: usize = 0;
    while i < 8
        invariant
            i <= 8,
            data@.len() >= 8,
            sig@ == cdt_signature(),
            forall|k: int| 0 <= k < i ==> data@[k] == cdt_signature()[k],
        decreases 8 - i,
    {
        if data[i] != sig[i] {
            assert(data@.subrange(0, 8)[i as int] != cdt_signature()[i as int]);
            return false;
        }
        i += 1;
    }
    assert(data@.subrange(0, 8) =~= cdt_signature());
    true
}

impl CdtImage {
    /// Decodes a whole `.cdt` file. Never panics on a corrupt or truncated
    /// file: every read past its end is an error.
    pub fn parse(data: &[u8]) -> (r: Result<CdtImage, String>)
        ensures
            r is Ok <==> cdt_ok(data@),
            r matches Ok(img) ==> blocks_decoded(img.blocks@, data@, 10),
            r matches Err(m) ==> m@ == if data@.len() < 10 || data@.subrange(0, 8) != cdt_signature() {
                no_cdt_signature_text()
            } else {
                blocks_error(data@, 10)
            },
    {
        proof { reveal_strlit("Signature CDT absente ou invalide (attendu \"ZXTape!\")"); }
        if data.len() < 10 || !has_cdt_signature(data) {
            return Err(String::from_str("Signature CDT absente ou invalide (attendu \"ZXTape!\")"));
        }
        // data[8]/data[9] = major/minor version: unused, the block
        // structure does not depend on them.
        let len = data.len();
        let mut pos: usize = 10;
        let mut blocks: Vec<Block> = Vec::new();
        while pos < len
            invariant
                10 <= pos,
                len == data@.len(),
                data@.len() >= 10 && data@.subrange(0, 8) == cdt_signature(),
                pos < len ==> (blocks_ok(data@, 10) == blocks_ok(data@, pos as int)),
                pos < len ==> (blocks_error(data@, 10) == blocks_error(data@, pos as int)),
                pos >= len ==> blocks_ok(data@, 10),
                forall|rest: Seq<Block>| #[trigger] blocks_decoded(rest, data@, pos as int)
                    ==> blocks_decoded(blocks@ + rest, data@, 10),
            decreases len - pos,
        {
            let id = match read_u8(data, pos) {
                Ok(v) => v,
                Err(e) => {
                    return Err(e);
                },
            };
            let (block, consumed) = match Self::parse_block(id, data, pos + 1) {
                Ok(bc) => bc,
                Err(e) => {
                    return Err(e);
                },
            };
            let ghost before = blocks@;
            let ghost b = block;
            blocks.push(block);
            // Past the end of the file (or of the integers) the walk stops.
            let next: u64 = match (pos as u64).checked_add(consumed) {
                Some(v) => if v < u64::MAX { v + 1 } else { u64::MAX },
                None => u64::MAX,
            };
            proof {
                assert(blocks_decoded(seq![b], data@, pos as int) || next < len);
                assert forall|rest: Seq<Block>| #[trigger] blocks_decoded(rest, data@, next as int) && next < len
                    implies blocks_decoded(blocks@ + rest, data@, 10) by {
                    assert((seq![b] + rest).drop_first() =~= rest);
                    assert(blocks_decoded(seq![b] + rest, data@, pos as int));
                    assert(before + (seq![b] + rest) =~= blocks@ + rest);
                }
                if next >= len {
                    assert(blocks_decoded(seq![b], data@, pos as int));
                    assert(before + seq![b] =~= blocks@);
                    assert(blocks@ + Seq::<Block>::empty() =~= blocks@);
                }
            }
            if next >= len as u64 {
                pos = len;
                proof {
                    assert forall|rest: Seq<Block>| #[trigger] blocks_decoded(rest, data@, pos as int)
                        implies blocks_decoded(blocks@ + rest, data@, 10) by {
                        assert(rest =~= Seq::<Block>::empty());
                        assert(blocks@ + rest =~= blocks@);
                    }
                }
            } else {
                pos = next as usize;
            }
        }
        proof {
            assert(blocks_decoded(Seq::<Block>::empty(), data@, pos as int));
            assert(blocks@ + Seq::<Block>::empty() =~= blocks@);
        }
        Ok(CdtImage { blocks })
    }
}


// ---------------------------------------------------------------------------
// Pulse-level replay
// ---------------------------------------------------------------------------

/// An event of the replay queue: an edge (the level flips, then holds for
/// the given number of T-states), or a hold (the level stays as it is;
/// used for the pauses between blocks).
#[derive(Clone, Copy, Debug, PartialEq, Eq, Structural)]
pub enum PulseEvent {
    Toggle(u32),
    Hold(u32),
}

/// `count` edges of `len` T-states each.
pub open spec fn tone(len: u16, count: int) -> Seq<PulseEvent> {
    Seq::new(count as nat, |_i: int| PulseEvent::Toggle(len as u32))
}

/// Length of the two pulses encoding bit `bit_pos` of `byte`.
pub open spec fn bit_pulse(byte: u8, bit_pos: u8, zero: u16, one: u16) -> u32 {
    if (byte >> bit_pos) & 1 == 0 { zero as u32 } else { one as u32 }
}

/// The `bits` most significant bits of `byte`, most significant first,
/// two equal edges per bit.
pub open spec fn byte_pulses(byte: u8, bits: int, zero: u16, one: u16) -> Seq<PulseEvent> {
    Seq::new((2 * bits) as nat, |j: int| PulseEvent::Toggle(bit_pulse(byte, (7 - j / 2) as u8, zero, one)))
}

/// Every bit of every byte of `data`.
pub open spec fn bytes_pulses(data: Seq<u8>, zero: u16, one: u16) -> Seq<PulseEvent>
    decreases data.len(),
{
    if data.len() == 0 {
        Seq::empty()
    } else {
        bytes_pulses(data.drop_last(), zero, one) + byte_pulses(data.last(), 8, zero, one)
    }
}

/// Bits sent of the last byte of a data block: `used` brought into 1..=8.
pub open spec fn used_bits(used: u8) -> int {
    if used < 1 { 1 } else if used > 8 { 8 } else { used as int }
}

/// The data bits of a block: every bit of each byte but the last, of
/// which only the `used` most significant bits are sent (so that a stream
/// need not end on a byte boundary).
pub open spec fn data_pulses(data: Seq<u8>, zero: u16, one: u16, used: u8) -> Seq<PulseEvent> {
    if data.len() == 0 {
        Seq::empty()
    } else {
        bytes_pulses(data.drop_last(), zero, one) + byte_pulses(data.last(), used_bits(used), zero, one)
    }
}

/// The hold that ends a block, if its pause is not zero.
pub open spec fn pause_pulses(pause_ms: u16) -> Seq<PulseEvent> {
    if pause_ms > 0 { seq![PulseEvent::Hold((pause_ms * TICKS_PER_MS) as u32)] } else { Seq::empty() }
}

/// A block with a pilot: pilot tone, two sync pulses, the data bits, then
/// the pause.
pub open spec fn data_block_pulses(pilot_pulse: u16, sync1: u16, sync2: u16, zero: u16, one: u16,
    pilot_tone_length: u16, used: u8, pause_ms: u16, data: Seq<u8>) -> Seq<PulseEvent> {
    tone(pilot_pulse, pilot_tone_length as int)
        + seq![PulseEvent::Toggle(sync1 as u32), PulseEvent::Toggle(sync2 as u32)]
        + data_pulses(data, zero, one, used)
        + pause_pulses(pause_ms)
}

/// Pilot length of a standard block: a header block (first byte below
/// 0x80) has a longer pilot than a data block.
pub open spec fn standard_pilot_length(data: Seq<u8>) -> u16 {
    if data.len() > 0 && data[0] < 0x80 { 8063 } else { 3223 }
}

/// The pulses a block replays; `None` stops the tape there (a 0 ms pause,
/// "Stop the Tape").
pub open spec fn block_pulses(b: Block) -> Option<Seq<PulseEvent>> {
    match b {
        Block::StandardSpeedData { pause_ms, data } => Some(data_block_pulses(
            2168, 667, 735, 855, 1710, standard_pilot_length(data@), 8, pause_ms, data@)),
        Block::TurboSpeedData { pilot_pulse, sync1, sync2, zero_bit_pulse, one_bit_pulse,
            pilot_tone_length, used_bits_last_byte, pause_ms, data } => Some(data_block_pulses(
            pilot_pulse, sync1, sync2, zero_bit_pulse, one_bit_pulse, pilot_tone_length,
            used_bits_last_byte, pause_ms, data@)),
        Block::PureTone { pulse_length, num_pulses } => Some(tone(pulse_length, num_pulses as int)),
        Block::PulseSequence { pulses } => Some(Seq::new(pulses@.len(), |i: int| PulseEvent::Toggle(pulses@[i] as u32))),
        Block::PureData { zero_bit_pulse, one_bit_pulse, used_bits_last_byte, pause_ms, data } => Some(
            data_pulses(data@, zero_bit_pulse, one_bit_pulse, used_bits_last_byte) + pause_pulses(pause_ms)),
        Block::Pause { pause_ms } => if pause_ms == 0 {
            None
        } else {
            Some(seq![PulseEvent::Hold((pause_ms * TICKS_PER_MS) as u32)])
        },
        Block::Meta => Some(Seq::empty()),
    }
}

/// Appends `count` edges of `len` T-states.
fn push_tone(q: &mut VecDeque<PulseEvent>, len: u16, count: u16)
    ensures
        final(q)@ == old(q)@ + tone(len, count as int),
{
    let mut i: u16 = 0;
    while i < count
        invariant
            i <= count,
            q@ == old(q)@ + tone(len, i as int),
        decreases count - i,
    {
        q.push_back(PulseEvent::Toggle(len as u32));
        i += 1;
        assert(q@ =~= old(q)@ + tone(len, i as int));
    }
}

/// Appends the `bits` most significant bits of `byte`.
fn push_byte(q: &mut VecDeque<PulseEvent>, byte: u8, bits: u8, zero: u16, one: u16)
    requires
        1 <= bits <= 8,
    ensures
        final(q)@ == old(q)@ + byte_pulses(byte, bits as int, zero, one),
{
    let mut k: u8 = 0;
    while k < bits
        invariant
            k <= bits <= 8,
            q@ == old(q)@ + byte_pulses(byte, k as int, zero, one),
        decreases bits - k,
    {
        let bit_pos: u8 = 7 - k;
        let bit = (byte >> bit_pos) & 1;
        let pulse: u32 = if bit == 0 { zero as u32 } else { one as u32 };
        q.push_back(PulseEvent::Toggle(pulse));
        q.push_back(PulseEvent::Toggle(pulse));
        k += 1;
        proof {
            let bp = byte_pulses(byte, k as int, zero, one);
            assert(bp[2 * k - 2] == PulseEvent::Toggle(pulse));
            assert(bp[2 * k - 1] == PulseEvent::Toggle(pulse));
        }
        assert(q@ =~= old(q)@ + byte_pulses(byte, k as int, zero, one));
    }
}

/// State of the cassette deck: position in the loaded tape and the level
/// presented to the PPI (bit 6 of port B).
///
/// Pulse-level emulation: rather than trapping the firmware routines, the
/// signal is rebuilt with the exact pulse timing of the CDT file, and the
/// CPC firmware (tape routines of the lower ROM) decodes it as it would a
/// real tape. Loading therefore takes the tape's real time.
pub struct Tape {
    pub pending_blocks: VecDeque<Block>,
    pub pulses: VecDeque<PulseEvent>,
    pub pulse_countdown: u32,
    pub current_level: bool,
    /// Set once the tape has reached its end, or on a "Stop the Tape"
    /// block (0 ms pause): the signal then stays frozen until a new tape
    /// is inserted.
    pub stopped: bool,
    /// Mirrors the motor bit of PPI port C (bit 5): the tape only moves
    /// while the firmware runs the motor, as on a real deck.
    pub motor_on: bool,
    pub current_filename: Option<String>,
}

/// What the replay depends on: blocks still to play, pulses of the block
/// being played, T-states left on the current pulse, signal level, and
/// whether the tape has stopped.
pub struct TapeState {
    pub blocks: Seq<Block>,
    pub pulses: Seq<PulseEvent>,
    pub countdown: u32,
    pub level: bool,
    pub stopped: bool,
}

/// Every bit of every byte of `data`, two edges per bit: `16 * i + 2 * j`
/// and the edge after it carry bit `7 - j` of byte `i`.
proof fn lemma_bytes_pulses_at(data: Seq<u8>, zero: u16, one: u16)
    ensures
        bytes_pulses(data, zero, one).len() == 16 * data.len(),
        forall|i: int, k: int| 0 <= i < data.len() && 0 <= k < 16 ==>
            bytes_pulses(data, zero, one)[16 * i + k] == #[trigger] byte_pulses(data[i], 8, zero, one)[k],
    decreases data.len(),
{
    if data.len() > 0 {
        let rest = data.drop_last();
        lemma_bytes_pulses_at(rest, zero, one);
        assert forall|i: int, k: int| 0 <= i < data.len() && 0 <= k < 16 implies
            bytes_pulses(data, zero, one)[16 * i + k] == #[trigger] byte_pulses(data[i], 8, zero, one)[k] by {
            if i < rest.len() {
                assert(rest[i] == data[i]);
                assert(byte_pulses(rest[i], 8, zero, one)[k] == bytes_pulses(rest, zero, one)[16 * i + k]);
            }
        }
    }
}

/// The ROM loader's timing of a standard speed data block (ID 0x10), in
/// T-states: a pilot of 2168-T-state edges (8063 of them before a header
/// block, whose first byte is below 0x80, 3223 before a data block), two
/// sync edges of 667 and 735, then each bit of each byte, most
/// significant first, as two edges of 855 for a 0 and 1710 for a 1, then
/// the pause. `p` is the pilot's length, the edges of bit `j` (from the
/// top) of byte `i` stand at `p + 2 + 16 * i + 2 * j` and the next.
pub proof fn lemma_standard_block_timing(pause_ms: u16, data: Vec<u8>, i: int, j: int, e: int)
    requires
        data@.len() > 0,
    ensures
        ({
            let b = Block::StandardSpeedData { pause_ms, data };
            let q = block_pulses(b)->0;
            let p: int = if data@[0] < 0x80 { 8063 } else { 3223 };
            &&& block_pulses(b) is Some
            &&& q.len() == p + 2 + 16 * data@.len() + if pause_ms > 0 { 1int } else { 0int }
            &&& (0 <= e < p ==> q[e] == PulseEvent::Toggle(2168))
            &&& q[p] == PulseEvent::Toggle(667)
            &&& q[p + 1] == PulseEvent::Toggle(735)
            &&& (0 <= i < data@.len() && 0 <= j < 8 ==> {
                let edge = PulseEvent::Toggle(if (data@[i] >> (7 - j) as u8) & 1 == 0 { 855 } else { 1710 });
                &&& q[p + 2 + 16 * i + 2 * j] == edge
                &&& q[p + 2 + 16 * i + 2 * j + 1] == edge
            })
        }),
{
    let d = data@;
    let p: int = if d[0] < 0x80 { 8063 } else { 3223 };
    let b = Block::StandardSpeedData { pause_ms, data };
    assert(standard_pilot_length(d) as int == p);
    lemma_bytes_pulses_at(d, 855, 1710);
    assert(used_bits(8) == 8);
    assert(data_pulses(d, 855, 1710, 8) =~= bytes_pulses(d, 855, 1710));
    let q = block_pulses(b)->0;
    let head = tone(2168, p) + seq![PulseEvent::Toggle(667u32), PulseEvent::Toggle(735u32)];
    assert(q == head + bytes_pulses(d, 855, 1710) + pause_pulses(pause_ms));
    if 0 <= i < d.len() && 0 <= j < 8 {
        let bp = byte_pulses(d[i], 8, 855, 1710);
        assert(bp[2 * j] == bytes_pulses(d, 855, 1710)[16 * i + 2 * j]);
        assert(bp[2 * j + 1] == bytes_pulses(d, 855, 1710)[16 * i + 2 * j + 1]);
        assert((2 * j) / 2 == j && (2 * j + 1) / 2 == j);
        assert(q[p + 2 + 16 * i + 2 * j] == bytes_pulses(d, 855, 1710)[16 * i + 2 * j]);
        assert(q[p + 2 + 16 * i + 2 * j + 1] == bytes_pulses(d, 855, 1710)[16 * i + 2 * j + 1]);
    }
}

/// Skips the blocks that produce no pulse: the blocks left after the next
/// one that does, and its pulses; `None` when the tape ends or stops
/// first (with the blocks left after the stop).
pub open spec fn next_pulses(blocks: Seq<Block>) -> (Seq<Block>, Option<Seq<PulseEvent>>)
    decreases blocks.len(),
{
    if blocks.len() == 0 {
        (blocks, None)
    } else {
        match block_pulses(blocks[0]) {
            None => (blocks.drop_first(), None),
            Some(q) => if q.len() == 0 {
                next_pulses(blocks.drop_first())
            } else {
                (blocks.drop_first(), Some(q))
            },
        }
    }
}

/// Skipping to the next block with pulses consumes at least one block.
pub proof fn lemma_next_pulses_shorter(blocks: Seq<Block>)
    ensures
        next_pulses(blocks).0.len() <= blocks.len(),
        blocks.len() > 0 ==> next_pulses(blocks).0.len() < blocks.len(),
    decreases blocks.len(),
{
    if blocks.len() > 0 {
        lemma_next_pulses_shorter(blocks.drop_first());
    }
}

/// The replay state after `remaining` T-states of a running tape: each
/// pulse flips the level (a hold keeps it) and lasts its length (at least
/// one T-state); when the pulses of a block run out the next block's come;
/// at the end of the tape, or on a stop, the tape stops there.
pub open spec fn played(t: TapeState, remaining: nat) -> TapeState
    decreases remaining, t.blocks.len(),
{
    if remaining == 0 {
        t
    } else if t.countdown == 0 {
        if t.pulses.len() > 0 {
            let (level, d) = match t.pulses[0] {
                PulseEvent::Toggle(d) => (!t.level, d),
                PulseEvent::Hold(d) => (t.level, d),
            };
            let cd: u32 = if d < 1 { 1 } else { d };
            let c: nat = if remaining < cd { remaining } else { cd as nat };
            played(TapeState { pulses: t.pulses.drop_first(), countdown: (cd - c) as u32, level, ..t },
                (remaining - c) as nat)
        } else {
            let next = next_pulses(t.blocks);
            match next.1 {
                None => TapeState { blocks: next.0, stopped: true, ..t },
                Some(q) => {
                    proof { lemma_next_pulses_shorter(t.blocks); }
                    played(TapeState { blocks: next.0, pulses: q, ..t }, remaining)
                },
            }
        }
    } else {
        let c: nat = if remaining < t.countdown { remaining } else { t.countdown as nat };
        played(TapeState { countdown: (t.countdown - c) as u32, ..t }, (remaining - c) as nat)
    }
}

/// A "Stop the Tape" block (a pause of 0 ms) halts the replay: a running
/// tape with nothing left of the current block, which reaches such a block,
/// stops there within any time at all, its level unchanged, the blocks
/// after it left for later.
pub proof fn lemma_stop_block_halts_the_tape(t: TapeState, remaining: nat)
    requires
        remaining > 0,
        t.countdown == 0,
        t.pulses.len() == 0,
        t.blocks.len() > 0,
        t.blocks[0] == (Block::Pause { pause_ms: 0 }),
    ensures
        played(t, remaining).stopped,
        played(t, remaining).level == t.level,
        played(t, remaining).blocks == t.blocks.drop_first(),
        played(t, remaining).pulses == t.pulses,
{
    assert(block_pulses(t.blocks[0]) is None);
    assert(next_pulses(t.blocks) == (t.blocks.drop_first(), None::<Seq<PulseEvent>>));
}

impl Tape {
    /// The replay state of the deck.
    pub open spec fn state(&self) -> TapeState {
        TapeState {
            blocks: self.pending_blocks@,
            pulses: self.pulses@,
            countdown: self.pulse_countdown,
            level: self.current_level,
            stopped: self.stopped,
        }
    }

    /// An empty deck, motor off.
    /// The deck at power-on: empty, stopped, motor off.
    pub open spec fn powered_on(&self) -> bool {
        &&& self.state().blocks.len() == 0
        &&& self.state().pulses.len() == 0
        &&& self.state().countdown == 0
        &&& !self.state().level
        &&& self.state().stopped
        &&& !self.motor_on
        &&& self.current_filename is None
    }

    pub fn new() -> (t: Tape)
        ensures
            t.powered_on(),
            t.state().blocks.len() == 0,
            t.state().pulses.len() == 0,
            t.state().countdown == 0,
            !t.state().level,
            t.state().stopped,
            !t.motor_on,
            t.current_filename is None,
    {
        Tape {
            pending_blocks: VecDeque::new(),
            pulses: VecDeque::new(),
            pulse_countdown: 0,
            current_level: false,
            stopped: true,
            motor_on: false,
            current_filename: None,
        }
    }

    /// Inserts a decoded tape, read from `filename`, rewound to its start.
    pub fn insert_tape(&mut self, image: CdtImage, filename: String)
        ensures
            final(self).state() == (TapeState {
                blocks: image.blocks@,
                pulses: Seq::empty(),
                countdown: 0,
                level: false,
                stopped: false,
            }),
            final(self).motor_on == old(self).motor_on,
            final(self).current_filename == Some(filename),
    {
        let mut blocks = image.blocks;
        let ghost all = blocks@;
        let mut queue: VecDeque<Block> = VecDeque::new();
        while blocks.len() > 0
            invariant
                blocks@ + queue@ == all,
            decreases blocks@.len(),
        {
            let b = blocks.pop().unwrap();
            queue.push_front(b);
            assert(blocks@ + queue@ =~= all);
        }
        assert(queue@ =~= all);
        self.pending_blocks = queue;
        self.pulses.clear();
        self.pulse_countdown = 0;
        self.current_level = false;
        self.stopped = false;
        self.current_filename = Some(filename);
    }

    /// Ejects the tape.
    /// `n` is the deck `o` once its tape is ejected.
    pub open spec fn ejected(o: Tape, n: Tape) -> bool {
        &&& n.state() == (TapeState { blocks: Seq::empty(), pulses: Seq::empty(), countdown: 0, level: false, stopped: true })
        &&& n.motor_on == o.motor_on
        &&& n.current_filename is None
    }

    pub fn eject(&mut self)
        ensures
            Self::ejected(*old(self), *final(self)),
            final(self).state() == (TapeState {
                blocks: Seq::empty(),
                pulses: Seq::empty(),
                countdown: 0,
                level: false,
                stopped: true,
            }),
            final(self).motor_on == old(self).motor_on,
            final(self).current_filename is None,
    {
        self.pending_blocks.clear();
        self.pulses.clear();
        self.pulse_countdown = 0;
        self.current_level = false;
        self.stopped = true;
        self.current_filename = None;
    }

    /// Current level of the tape signal, as bit 6 of PPI port B sees it.
    pub fn read_bit(&self) -> (b: bool)
        ensures
            b == self.state().level,
    {
        self.current_level
    }

    /// Moves to the next block that produces pulses (metadata blocks
    /// produce none) and loads its pulse queue. False when the tape has
    /// reached its end or an explicit stop.
    fn advance_block(&mut self) -> (going: bool)
        ensures
            ({
                let next = next_pulses(old(self).state().blocks);
                &&& final(self).state().blocks == next.0
                &&& going == next.1 is Some
                &&& match next.1 {
                    Some(q) => final(self).state() == (TapeState { blocks: next.0, pulses: q, ..old(self).state() }),
                    None => final(self).state() == (TapeState { blocks: next.0, stopped: true, ..old(self).state() }),
                }
            }),
            final(self).motor_on == old(self).motor_on,
            final(self).current_filename == old(self).current_filename,
    {
        loop
            invariant
                next_pulses(self.state().blocks) == next_pulses(old(self).state().blocks),
                self.state() == (TapeState { blocks: self.state().blocks, ..old(self).state() }),
                self.motor_on == old(self).motor_on,
                self.current_filename == old(self).current_filename,
            decreases self.pending_blocks@.len(),
        {
            let ghost bs = self.pending_blocks@;
            let block = match self.pending_blocks.pop_front() {
                Some(b) => b,
                None => {
                    self.stopped = true;
                    return false;
                },
            };
            assert(bs.drop_first() =~= self.pending_blocks@);
            match Self::build_pulses(&block) {
                None => {
                    self.stopped = true;
                    return false;
                },
                Some(queue) => {
                    if queue.len() == 0 {
                        continue;
                    }
                    self.pulses = queue;
                    return true;
                },
            }
        }
    }

    /// Advances the tape by `elapsed_ticks` T-states. No effect while the
    /// motor is off or once the tape has stopped, as a cassette does not
    /// move when the deck does not turn.
    pub fn tick(&mut self, elapsed_ticks: u32)
        ensures
            final(self).motor_on == old(self).motor_on,
            final(self).current_filename == old(self).current_filename,
            if !old(self).motor_on || old(self).state().stopped {
                final(self).state() == old(self).state()
            } else {
                final(self).state() == played(old(self).state(), elapsed_ticks as nat)
            },
    {
        if !self.motor_on || self.stopped {
            return;
        }
        let mut remaining = elapsed_ticks;
        while remaining > 0
            invariant
                played(self.state(), remaining as nat) == played(old(self).state(), elapsed_ticks as nat),
                old(self).motor_on && !old(self).stopped,
                self.motor_on == old(self).motor_on,
                self.current_filename == old(self).current_filename,
            decreases remaining, self.pending_blocks@.len(),
        {
            if self.pulse_countdown == 0 {
                let ghost ps = self.pulses@;
                match self.pulses.pop_front() {
                    Some(PulseEvent::Toggle(d)) => {
                        self.current_level = !self.current_level;
                        self.pulse_countdown = if d < 1 { 1 } else { d };
                        assert(ps.drop_first() =~= self.pulses@);
                    },
                    Some(PulseEvent::Hold(d)) => {
                        self.pulse_countdown = if d < 1 { 1 } else { d };
                        assert(ps.drop_first() =~= self.pulses@);
                    },
                    None => {
                        proof { lemma_next_pulses_shorter(self.pending_blocks@); }
                        let ghost t = self.state();
                        assert(t.pulses.len() == 0 && t.countdown == 0);
                        if !self.advance_block() {
                            assert(played(t, remaining as nat) == self.state());
                            return;
                        }
                        continue;
                    },
                }
            }
            let consume = if remaining < self.pulse_countdown { remaining } else { self.pulse_countdown };
            self.pulse_countdown = self.pulse_countdown - consume;
            remaining = remaining - consume;
        }
    }
}

impl Default for Tape {
    fn default() -> (t: Tape)
        ensures
            t.state().blocks.len() == 0,
            t.state().pulses.len() == 0,
            t.state().countdown == 0,
            !t.state().level,
            t.state().stopped,
            !t.motor_on,
            t.current_filename is None,
    {
        Tape::new()
    }
}

impl Tape {
    /// Encodes data bytes into pulses (two pulses per bit, most
    /// significant first). Of the last byte only its `used_bits_last_byte`
    /// most significant bits are sent.
    fn encode_data(q: &mut VecDeque<PulseEvent>, zero_bit_pulse: u16, one_bit_pulse: u16,
        used_bits_last_byte: u8, data: &[u8])
        ensures
            final(q)@ == old(q)@ + data_pulses(data@, zero_bit_pulse, one_bit_pulse, used_bits_last_byte),
    {
        let n = data.len();
        if n == 0 {
            assert(old(q)@ + Seq::<PulseEvent>::empty() =~= old(q)@);
            return;
        }
        let last_index = n - 1;
        let mut i: usize = 0;
        while i < last_index
            invariant
                i <= last_index,
                last_index + 1 == n,
                n == data@.len(),
                q@ == old(q)@ + bytes_pulses(data@.subrange(0, i as int), zero_bit_pulse, one_bit_pulse),
            decreases last_index - i,
        {
            let ghost before = q@;
            push_byte(q, data[i], 8, zero_bit_pulse, one_bit_pulse);
            proof {
                let pre = data@.subrange(0, i + 1);
                assert(pre.drop_last() =~= data@.subrange(0, i as int));
                assert(pre.last() == data@[i as int]);
            }
            i += 1;
        }
        let bits: u8 = if used_bits_last_byte < 1 { 1 } else if used_bits_last_byte > 8 { 8 } else { used_bits_last_byte };
        push_byte(q, data[last_index], bits, zero_bit_pulse, one_bit_pulse);
        assert(data@.drop_last() =~= data@.subrange(0, last_index as int));
    }

    /// Appends the hold of a non-zero pause.
    fn encode_pause(q: &mut VecDeque<PulseEvent>, pause_ms: u16)
        ensures
            final(q)@ == old(q)@ + pause_pulses(pause_ms),
    {
        if pause_ms > 0 {
            q.push_back(PulseEvent::Hold(pause_ms as u32 * TICKS_PER_MS));
        } else {
            assert(old(q)@ + Seq::<PulseEvent>::empty() =~= old(q)@);
        }
    }

    /// The pulses common to the blocks with a pilot (0x10 and 0x11).
    fn encode_data_block(pilot_pulse: u16, sync1: u16, sync2: u16, zero_bit_pulse: u16,
        one_bit_pulse: u16, pilot_tone_length: u16, used_bits_last_byte: u8, pause_ms: u16,
        data: &[u8]) -> (q: VecDeque<PulseEvent>)
        ensures
            q@ == data_block_pulses(pilot_pulse, sync1, sync2, zero_bit_pulse, one_bit_pulse,
                pilot_tone_length, used_bits_last_byte, pause_ms, data@),
    {
        let mut q: VecDeque<PulseEvent> = VecDeque::new();
        push_tone(&mut q, pilot_pulse, pilot_tone_length);
        q.push_back(PulseEvent::Toggle(sync1 as u32));
        q.push_back(PulseEvent::Toggle(sync2 as u32));
        Self::encode_data(&mut q, zero_bit_pulse, one_bit_pulse, used_bits_last_byte, data);
        Self::encode_pause(&mut q, pause_ms);
        assert(q@ =~= data_block_pulses(pilot_pulse, sync1, sync2, zero_bit_pulse, one_bit_pulse,
            pilot_tone_length, used_bits_last_byte, pause_ms, data@));
        q
    }

    /// The pulse queue of a block; `None` stops the tape ("Stop the Tape").
    fn build_pulses(block: &Block) -> (r: Option<VecDeque<PulseEvent>>)
        ensures
            match r {
                Some(q) => block_pulses(*block) == Some(q@),
                None => block_pulses(*block) is None,
            },
    {
        match block {
            Block::StandardSpeedData { pause_ms, data } => {
                // Standard ROM loader timing.
                let pilot_tone_length: u16 = if data.len() > 0 && data[0] < 0x80 { 8063 } else { 3223 };
                Some(Self::encode_data_block(2168, 667, 735, 855, 1710, pilot_tone_length, 8, *pause_ms,
                    data.as_slice()))
            },
            Block::TurboSpeedData { pilot_pulse, sync1, sync2, zero_bit_pulse, one_bit_pulse,
                pilot_tone_length, used_bits_last_byte, pause_ms, data } => Some(Self::encode_data_block(
                *pilot_pulse, *sync1, *sync2, *zero_bit_pulse, *one_bit_pulse, *pilot_tone_length,
                *used_bits_last_byte, *pause_ms, data.as_slice())),
            Block::PureTone { pulse_length, num_pulses } => {
                let mut q: VecDeque<PulseEvent> = VecDeque::new();
                push_tone(&mut q, *pulse_length, *num_pulses);
                assert(q@ =~= tone(*pulse_length, *num_pulses as int));
                Some(q)
            },
            Block::PulseSequence { pulses } => {
                let mut q: VecDeque<PulseEvent> = VecDeque::new();
                let mut i: usize = 0;
                while i < pulses.len()
                    invariant
                        i <= pulses@.len(),
                        q@ == Seq::new(i as nat, |k: int| PulseEvent::Toggle(pulses@[k] as u32)),
                    decreases pulses@.len() - i,
                {
                    q.push_back(PulseEvent::Toggle(pulses[i] as u32));
                    i += 1;
                    assert(q@ =~= Seq::new(i as nat, |k: int| PulseEvent::Toggle(pulses@[k] as u32)));
                }
                Some(q)
            },
            Block::PureData { zero_bit_pulse, one_bit_pulse, used_bits_last_byte, pause_ms, data } => {
                let mut q: VecDeque<PulseEvent> = VecDeque::new();
                Self::encode_data(&mut q, *zero_bit_pulse, *one_bit_pulse, *used_bits_last_byte, data.as_slice());
                Self::encode_pause(&mut q, *pause_ms);
                assert(q@ =~= data_pulses(data@, *zero_bit_pulse, *one_bit_pulse, *used_bits_last_byte)
                    + pause_pulses(*pause_ms));
                Some(q)
            },
            Block::Pause { pause_ms } => {
                if *pause_ms == 0 {
                    None
                } else {
                    let mut q: VecDeque<PulseEvent> = VecDeque::new();
                    q.push_back(PulseEvent::Hold(*pause_ms as u32 * TICKS_PER_MS));
                    assert(q@ =~= seq![PulseEvent::Hold((*pause_ms * TICKS_PER_MS) as u32)]);
                    Some(q)
                }
            },
            Block::Meta => {
                let q: VecDeque<PulseEvent> = VecDeque::new();
                assert(q@ =~= Seq::<PulseEvent>::empty());
                Some(q)
            },
        }
    }
}

} // verus!
