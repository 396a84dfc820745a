//! Instruction trace recorder: a ring buffer of the last instructions
//! executed (or only of the sequence breaks), with the bytes captured at
//! execution time.

use crate::text::{decimal, push_decimal};
use vstd::prelude::*;
use std::collections::VecDeque;

verus! {

/// Number of instructions kept. The buffer is circular: it always keeps
/// the latest ones, which is what one wants, as a problem is nearly always
/// found afterwards.
pub const CAPACITY: usize = 65536;

/// What the recorder keeps.
#[derive(Clone, Copy, Debug, PartialEq, Eq, Structural)]
pub enum TraceMode {
    Off,
    /// Every instruction executed.
    All,
    /// Only sequence breaks (jumps, calls, returns, RST): far easier to
    /// follow, and the buffer covers a far longer run.
    Branches,
}

/// One instruction executed. Its bytes are captured at execution time
/// rather than disassembled on the fly: cheap to record, and faithful to
/// the code that really ran even if it modified itself or the memory
/// banking changed since.
#[derive(Clone, Copy, Debug)]
pub struct TraceEntry {
    pub pc: u16,
    pub sp: u16,
    pub opcode: [u8; 4],
}

/// Whether the instruction whose bytes are `op` breaks the sequence of
/// execution.
pub open spec fn breaks_sequence(op: [u8; 4]) -> bool {
    let o = op[0];
    let o1 = op[1];
    // JP nn, JP (HL), CALL nn, RET, JR e, DJNZ e
    ||| o == 0xC3 || o == 0xE9 || o == 0xCD || o == 0xC9 || o == 0x18 || o == 0x10
    // JP cc,nn / CALL cc,nn / RET cc: 11ccc010, 11ccc100, 11ccc000
    ||| o == 0xC2 || o == 0xCA || o == 0xD2 || o == 0xDA || o == 0xE2 || o == 0xEA || o == 0xF2 || o == 0xFA
    ||| o == 0xC4 || o == 0xCC || o == 0xD4 || o == 0xDC || o == 0xE4 || o == 0xEC || o == 0xF4 || o == 0xFC
    ||| o == 0xC0 || o == 0xC8 || o == 0xD0 || o == 0xD8 || o == 0xE0 || o == 0xE8 || o == 0xF0 || o == 0xF8
    // JR cc,e
    ||| o == 0x20 || o == 0x28 || o == 0x30 || o == 0x38
    // RETN / RETI
    ||| o == 0xED && (o1 == 0x45 || o1 == 0x4D || o1 == 0x55 || o1 == 0x5D || o1 == 0x65 || o1 == 0x6D
        || o1 == 0x75 || o1 == 0x7D)
    // JP (IX) / JP (IY)
    ||| (o == 0xDD || o == 0xFD) && o1 == 0xE9
    // The eight RST: bits 7-6 and 2-0 set.
    ||| o == 0xC7 || o == 0xCF || o == 0xD7 || o == 0xDF || o == 0xE7 || o == 0xEF || o == 0xF7 || o == 0xFF
}

/// Whether the instruction whose bytes are `opcode` breaks the sequence.
pub fn is_branch(opcode: &[u8; 4]) -> (b: bool)
    ensures
        b == breaks_sequence(*opcode),
{
    let o = opcode[0];
    let o1 = opcode[1];
    if o == 0xED {
        o1 == 0x45 || o1 == 0x4D || o1 == 0x55 || o1 == 0x5D || o1 == 0x65 || o1 == 0x6D || o1 == 0x75 || o1 == 0x7D
    } else if o == 0xDD || o == 0xFD {
        o1 == 0xE9
    } else {
        let fixed = o == 0xC3 || o == 0xE9 || o == 0xCD || o == 0xC9 || o == 0x18 || o == 0x10;
        let jp_cc = o == 0xC2 || o == 0xCA || o == 0xD2 || o == 0xDA || o == 0xE2 || o == 0xEA || o == 0xF2 || o == 0xFA;
        let call_cc = o == 0xC4 || o == 0xCC || o == 0xD4 || o == 0xDC || o == 0xE4 || o == 0xEC || o == 0xF4 || o == 0xFC;
        let ret_cc = o == 0xC0 || o == 0xC8 || o == 0xD0 || o == 0xD8 || o == 0xE0 || o == 0xE8 || o == 0xF0 || o == 0xF8;
        let jr_cc = o == 0x20 || o == 0x28 || o == 0x30 || o == 0x38;
        let rst = o & 0xC7 == 0xC7;
        assert(rst == (o == 0xC7 || o == 0xCF || o == 0xD7 || o == 0xDF || o == 0xE7 || o == 0xEF
            || o == 0xF7 || o == 0xFF)) by (bit_vector)
            requires rst == (o & 0xC7 == 0xC7);
        fixed || jp_cc || call_cc || ret_cc || jr_cc || rst
    }
}

/// The recorder.
pub struct Tracer {
    pub mode: TraceMode,
    pub entries: VecDeque<TraceEntry>,
}

/// Name of a recording mode in the status line.
pub open spec fn mode_name(mode: TraceMode) -> Seq<char> {
    match mode {
        TraceMode::Off => "off"@,
        TraceMode::All => "on (toutes les instructions)"@,
        TraceMode::Branches => "calls (sauts, appels et retours)"@,
    }
}

/// The status line of a recorder in `mode` holding `len` entries.
pub open spec fn status_text(mode: TraceMode, len: nat) -> Seq<char> {
    "Trace: "@ + mode_name(mode) + " - "@ + decimal(len) + " instruction(s) en tampon (capacite "@
        + decimal(CAPACITY as nat) + ")"@
}

impl Tracer {
    /// The recorder keeps at most `CAPACITY` entries.
    pub open spec fn wf(&self) -> bool {
        self.entries@.len() <= CAPACITY
    }

    /// A recorder off, empty.
    pub fn new() -> (t: Tracer)
        ensures
            t.mode == TraceMode::Off,
            t.entries@.len() == 0,
    {
        Tracer { mode: TraceMode::Off, entries: VecDeque::new() }
    }

    /// Whether instructions are being recorded: to test before capturing
    /// the bytes, so that a disabled trace costs one comparison.
    pub fn is_recording(&self) -> (b: bool)
        ensures
            b == (self.mode != TraceMode::Off),
    {
        self.mode != TraceMode::Off
    }

    /// Starts recording in `mode`, emptying the buffer.
    pub fn start(&mut self, mode: TraceMode)
        ensures
            final(self).mode == mode,
            final(self).entries@.len() == 0,
    {
        self.mode = mode;
        self.entries.clear();
    }

    /// Stops recording; the buffer is kept.
    pub fn stop(&mut self)
        ensures
            final(self).mode == TraceMode::Off,
            final(self).entries@ == old(self).entries@,
    {
        self.mode = TraceMode::Off;
    }

    /// The entries after recording an instruction at `pc` (stack at `sp`,
    /// bytes `opcode`): kept unless only sequence breaks are traced and it
    /// is none, the oldest entry dropped when the buffer is full.
    pub open spec fn entries_after(self, pc: u16, sp: u16, opcode: [u8; 4]) -> Seq<TraceEntry> {
        if self.mode == TraceMode::Branches && !breaks_sequence(opcode) {
            self.entries@
        } else if self.entries@.len() == CAPACITY {
            self.entries@.drop_first().push(TraceEntry { pc, sp, opcode })
        } else {
            self.entries@.push(TraceEntry { pc, sp, opcode })
        }
    }

    /// Records an instruction (unless only sequence breaks are kept and it
    /// is none); the oldest entry goes when the buffer is full.
    pub fn record(&mut self, pc: u16, sp: u16, opcode: [u8; 4])
        ensures
            final(self).mode == old(self).mode,
            final(self).entries@ == old(self).entries_after(pc, sp, opcode),
    {
        if self.mode == TraceMode::Branches && !is_branch(&opcode) {
            return;
        }
        if self.entries.len() == CAPACITY {
            let ghost e = self.entries@;
            self.entries.pop_front();
            assert(self.entries@ =~= e.drop_first());
        }
        self.entries.push_back(TraceEntry { pc, sp, opcode });
    }

    /// A line describing the mode and the number of entries buffered.
    pub fn status(&self) -> (s: String)
        ensures
            s@ == status_text(self.mode, self.entries@.len()),
    {
        let mut s = String::from_str("Trace: ");
        match self.mode {
            TraceMode::Off => s.append("off"),
            TraceMode::All => s.append("on (toutes les instructions)"),
            TraceMode::Branches => s.append("calls (sauts, appels et retours)"),
        }
        s.append(" - ");
        push_decimal(&mut s, self.entries.len() as u64);
        s.append(" instruction(s) en tampon (capacite ");
        push_decimal(&mut s, CAPACITY as u64);
        s.append(")");
        s
    }

    /// The last `count` entries, oldest first.
    pub fn last_entries(&self, count: usize) -> (v: Vec<TraceEntry>)
        ensures
            ({
                let n = self.entries@.len();
                let skip = if n > count { n - count } else { 0 };
                v@ == self.entries@.subrange(skip as int, n as int)
            }),
    {
        let n = self.entries.len();
        let skip = if n > count { n - count } else { 0 };
        let mut v: Vec<TraceEntry> = Vec::new();
        let mut i = skip;
        while i < n
            invariant
                skip <= i <= n,
                n == self.entries@.len(),
                v@ == self.entries@.subrange(skip as int, i as int),
            decreases n - i,
        {
            v.push(self.entries[i]);
            i += 1;
            assert(v@ =~= self.entries@.subrange(skip as int, i as int));
        }
        v
    }

    /// Number of entries buffered.
    pub fn len(&self) -> (n: usize)
        ensures
            n == self.entries@.len(),
    {
        self.entries.len()
    }

    /// Whether the buffer is empty.
    pub fn is_empty(&self) -> (b: bool)
        ensures
            b == (self.entries@.len() == 0),
    {
        self.entries.len() == 0
    }
}

impl Default for Tracer {
    fn default() -> (t: Tracer)
        ensures
            t.mode == TraceMode::Off,
            t.entries@.len() == 0,
    {
        Tracer::new()
    }
}

/// Recording never lets the buffer grow past its capacity, and always
/// keeps the entry just recorded (when recorded at all) as the newest.
pub proof fn lemma_record_keeps_capacity(t: Tracer, entries: Seq<TraceEntry>, e: TraceEntry)
    requires
        t.wf(),
        entries == (if t.mode == TraceMode::Branches && !breaks_sequence(e.opcode) {
            t.entries@
        } else if t.entries@.len() == CAPACITY {
            t.entries@.drop_first().push(e)
        } else {
            t.entries@.push(e)
        }),
    ensures
        entries.len() <= CAPACITY,
        !(t.mode == TraceMode::Branches && !breaks_sequence(e.opcode)) ==> entries.last() == e,
{
}

} // verus!
