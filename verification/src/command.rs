//! What a monitor command does to the machine: from the machine and a
//! parsed command (see `monitor::parse_command`) to the next machine, the
//! lines to show, and the work left to the front end (the Z80's registers
//! and disassembly, files to read or write, the sound volume).

use crate::bus::CpcBus;
use crate::cli::same_text;
use crate::engine::trace::{status_text, TraceMode};
use crate::fdc::Fdc;
use crate::hex::{decimal_reading, hex_reading, hex_u16, hex_u8, not_hex_text, read_decimal};
use crate::machine::Machine;
use crate::monitor::{MonitorCmd, MonitorMessage};
use crate::status::texts;
use crate::tape::Tape;
use crate::text::{decimal, hex2, hex4, hex_word, push_decimal, push_hex2, push_hex4, push_hex_word};
use vstd::prelude::*;
use vstd::string::*;

verus! {

/// The work a command leaves to the front end.
#[derive(Debug)]
pub enum FrontAction {
    Nothing,
    ShowHelp,
    ShowRegisters,
    ShowHardware,
    /// Show the byte at this address, with where it is read from.
    ReadMem(u16),
    /// Show the byte just written at this address.
    WroteMem(u16, u8),
    SearchMem(u8),
    ListBreakpoints,
    ListWatchpoints,
    Step,
    StepLine,
    Disassemble(u16),
    /// Set the Z80's program counter.
    Jump(u16),
    /// Load this disc file, on drive B or A.
    LoadDisk(String, bool),
    /// Create this blank disc file and insert it, on drive B or A.
    BlankDisk(String, bool),
    LoadTape(String),
    SaveSnapshot(String),
    LoadSnapshot(String),
    PowerCycle,
    /// Set or show the sound volume (a percentage, as typed).
    Volume(String),
    /// Show the last recorded instructions, at most this many.
    TraceDump(usize),
    /// Write the recorded instructions to this file.
    TraceSave(String),
}

/// The lines to show and the work left to the front end.
pub struct CommandOutcome {
    pub log: Vec<String>,
    pub action: FrontAction,
}

/// `o` shows `log` and leaves `action`.
pub open spec fn outcome_is(o: CommandOutcome, log: Seq<Seq<char>>, action: FrontAction) -> bool {
    texts(o.log@) == log && o.action == action
}

/// `o` shows `log` and leaves nothing to do.
pub open spec fn only_log(o: CommandOutcome, log: Seq<Seq<char>>) -> bool {
    outcome_is(o, log, FrontAction::Nothing)
}

/// Whether a drive argument names drive B.
pub open spec fn names_drive_b(arg2: Seq<char>) -> bool {
    arg2 == "b"@ || arg2 == "B"@
}

/// The usage lines of the commands that can be misused.
pub open spec fn usage_blank() -> Seq<char> { "Usage: blank <file> [b]"@ }
pub open spec fn usage_tape() -> Seq<char> { "Usage: tape <file> | tape eject"@ }
pub open spec fn usage_snapshot() -> Seq<char> { "Usage: snap <file> | snap load <file>"@ }
pub open spec fn usage_trace() -> Seq<char> { "Usage: t | t on | t calls | t off | t dump [n] | t save <file>"@ }
pub open spec fn usage_trace_save() -> Seq<char> { "Usage: t save <file>"@ }

/// The text a byte shows in a RAM dump: itself when printable ASCII,
/// `.` otherwise.
pub open spec fn shown_char(b: u8) -> char {
    if 0x20 <= b < 0x7F { PRINTABLE@[b - 0x20] } else { '.' }
}

/// The printable ASCII characters, from 0x20 to 0x7E.
pub const PRINTABLE: &'static str = " !\"#$%&'()*+,-./0123456789:;<=>?@ABCDEFGHIJKLMNOPQRSTUVWXYZ[\\]^_`abcdefghijklmnopqrstuvwxyz{|}~";

/// The 16 bytes of the RAM dump row at `addr`: the RAM behind each of the
/// 16 addresses (wrapping past 0xFFFF).
pub open spec fn row_bytes(m: Machine, addr: u16) -> Seq<u8> {
    Seq::new(16, |i: int| m.bus.memory.ram@[m.bus.memory.physical(((addr as int + i) % 0x10000) as u16) as int])
}

/// `bytes` in hexadecimal, separated by spaces.
pub open spec fn hex_items(bytes: Seq<u8>, n: int) -> Seq<char>
    decreases n,
{
    if n <= 0 { Seq::empty() } else if n == 1 { hex2(bytes[0]) } else { hex_items(bytes, n - 1) + " "@ + hex2(bytes[n - 1]) }
}

/// The line of the RAM dump row at `addr`: the address, the 16 bytes in
/// hexadecimal, then as text.
pub open spec fn row_text(m: Machine, addr: u16) -> Seq<char> {
    let b = row_bytes(m, addr);
    hex4(addr) + "  "@ + hex_items(b, 16) + "  "@ + Seq::new(16, |i: int| shown_char(b[i]))
}

/// The rows of a RAM dump from `start` to `end`: every 16 bytes from
/// `start` while at most `end`, the first one always.
pub open spec fn dump_rows(start: u16, end: u16) -> nat {
    if end >= start { ((end - start) / 16 + 1) as nat } else { 1 }
}

/// The lines of a RAM dump from `start` to `end`.
pub open spec fn dump_text(m: Machine, start: u16, end: u16) -> Seq<Seq<char>> {
    Seq::new(dump_rows(start, end), |k: int| row_text(m, (start + 16 * k) as u16))
}

/// What command `msg` does: `o` the machine before, `n` after, `out` what
/// is shown and left to the front end. Addresses and bytes are read in
/// hexadecimal (see `hex_reading`); a value that reads as none is refused
/// with its message, and changes nothing.
pub open spec fn command_effect(o: Machine, msg: MonitorMessage, n: Machine, out: CommandOutcome) -> bool {
    let (cmd, arg, arg2) = msg;
    let a16 = hex_reading(arg@, 0xFFFF);
    let bad16 = seq![not_hex_text("a 16-bit"@, arg@)];
    match cmd {
        MonitorCmd::Help => n == o && outcome_is(out, seq![], FrontAction::ShowHelp),
        MonitorCmd::Unknown => n == o && only_log(out, seq!["Unknown command"@]),
        MonitorCmd::Pause => n == (Machine { running: false, ..o }) && only_log(out, seq!["Emulation paused !"@]),
        MonitorCmd::Resume => n == (Machine { running: true, ..o }) && only_log(out, seq!["Emulation resumed !"@]),
        MonitorCmd::Hardware => if arg@ == "kb"@ || arg@ == "keyboard"@ {
            n == (Machine { waiting_for_key: true, ..o }) && only_log(out,
                seq!["Waiting for a key press on the CPC window to show matrix status..."@])
        } else {
            n == o && outcome_is(out, seq![], FrontAction::ShowHardware)
        },
        MonitorCmd::Registers => n == o && outcome_is(out, seq![], FrontAction::ShowRegisters),
        MonitorCmd::ReadMem => n == o && match a16 {
            Some(a) => outcome_is(out, seq![], FrontAction::ReadMem(a as u16)),
            None => only_log(out, bad16),
        },
        MonitorCmd::WriteMem => match a16 {
            None => n == o && only_log(out, bad16),
            Some(a) => match hex_reading(arg2@, 0xFF) {
                None => n == o && only_log(out, seq![not_hex_text("an 8-bit"@, arg2@)]),
                Some(v) => {
                    &&& o.bus.memory.written(a as u16, v as u8, n.bus.memory)
                    &&& n.bus.watchpoint_hit == if o.bus.watchpoints@.contains(a as u16) {
                        Some(a as u16)
                    } else {
                        o.bus.watchpoint_hit
                    }
                    &&& n == (Machine {
                        bus: CpcBus { memory: n.bus.memory, watchpoint_hit: n.bus.watchpoint_hit, ..o.bus },
                        ..o
                    })
                    &&& outcome_is(out, seq![], FrontAction::WroteMem(a as u16, v as u8))
                },
            },
        },
        MonitorCmd::SearchMem => n == o && match hex_reading(arg@, 0xFF) {
            Some(v) => outcome_is(out, seq![], FrontAction::SearchMem(v as u8)),
            None => only_log(out, seq![not_hex_text("an 8-bit"@, arg@)]),
        },
        MonitorCmd::ListBreakpoints => n == o && outcome_is(out, seq![], FrontAction::ListBreakpoints),
        MonitorCmd::ListWatchpoints => n == o && outcome_is(out, seq![], FrontAction::ListWatchpoints),
        MonitorCmd::AddBreakpoint => match a16 {
            None => n == o && only_log(out, bad16),
            Some(a) => n == (Machine { breakpoints: n.breakpoints, ..o })
                && n.breakpoints@ == o.breakpoints@.insert(a as u16)
                && only_log(out, seq!["New breakpoint at "@ + hex_word(a as u16)]),
        },
        MonitorCmd::RemoveBreakpoint => match a16 {
            None => n == o && only_log(out, bad16),
            Some(a) => n == (Machine { breakpoints: n.breakpoints, ..o })
                && n.breakpoints@ == o.breakpoints@.remove(a as u16)
                && only_log(out, if o.breakpoints@.contains(a as u16) {
                    seq!["Breakpoint at "@ + hex_word(a as u16) + " removed"@]
                } else {
                    seq![]
                }),
        },
        MonitorCmd::AddWatchpoint => match a16 {
            None => n == o && only_log(out, bad16),
            Some(a) => n == (Machine { bus: CpcBus { watchpoints: n.bus.watchpoints, ..o.bus }, ..o })
                && n.bus.watchpoints@ == o.bus.watchpoints@.insert(a as u16)
                && only_log(out, seq!["New watchpoint at "@ + hex_word(a as u16)]),
        },
        MonitorCmd::RemoveWatchpoint => match a16 {
            None => n == o && only_log(out, bad16),
            Some(a) => n == (Machine { bus: CpcBus { watchpoints: n.bus.watchpoints, ..o.bus }, ..o })
                && n.bus.watchpoints@ == o.bus.watchpoints@.remove(a as u16)
                && only_log(out, if o.bus.watchpoints@.contains(a as u16) {
                    seq!["Watchpoint at "@ + hex_word(a as u16) + " removed"@]
                } else {
                    seq![]
                }),
        },
        MonitorCmd::Step => n == o && outcome_is(out, seq![], FrontAction::Step),
        MonitorCmd::StepLine => n == o && outcome_is(out, seq![], FrontAction::StepLine),
        MonitorCmd::Disassemble => n == o && match a16 {
            Some(a) => outcome_is(out, seq![], FrontAction::Disassemble(a as u16)),
            None => only_log(out, bad16),
        },
        MonitorCmd::Jump => n == o && match a16 {
            Some(a) => outcome_is(out, seq![], FrontAction::Jump(a as u16)),
            None => only_log(out, bad16),
        },
        MonitorCmd::Disk => if arg@ == "eject"@ {
            &&& n == (Machine { bus: CpcBus { fdc: n.bus.fdc, ..o.bus }, ..o })
            &&& if names_drive_b(arg2@) { Fdc::ejected_b(o.bus.fdc, n.bus.fdc) } else { Fdc::ejected_a(o.bus.fdc, n.bus.fdc) }
            &&& only_log(out, seq![])
        } else {
            n == o && outcome_is(out, seq![], FrontAction::LoadDisk(arg, names_drive_b(arg2@)))
        },
        MonitorCmd::Blank => n == o && if arg@.len() == 0 {
            only_log(out, seq![usage_blank()])
        } else {
            outcome_is(out, seq![], FrontAction::BlankDisk(arg, names_drive_b(arg2@)))
        },
        MonitorCmd::Tape => if arg@ == "eject"@ {
            &&& n == (Machine { bus: CpcBus { tape: n.bus.tape, ..o.bus }, ..o })
            &&& Tape::ejected(o.bus.tape, n.bus.tape)
            &&& only_log(out, seq!["Tape ejected."@])
        } else {
            n == o && if arg@.len() == 0 {
                only_log(out, seq![usage_tape()])
            } else {
                outcome_is(out, seq![], FrontAction::LoadTape(arg))
            }
        },
        MonitorCmd::Snapshot => n == o && if arg@ == "save"@ && arg2@.len() > 0 {
            outcome_is(out, seq![], FrontAction::SaveSnapshot(arg2))
        } else if arg@ == "load"@ && arg2@.len() > 0 {
            outcome_is(out, seq![], FrontAction::LoadSnapshot(arg2))
        } else if arg@.len() > 0 && arg2@.len() == 0 && arg@ != "save"@ && arg@ != "load"@ {
            outcome_is(out, seq![], FrontAction::SaveSnapshot(arg))
        } else {
            only_log(out, seq![usage_snapshot()])
        },
        MonitorCmd::PowerCycle => n == o && outcome_is(out, seq![], FrontAction::PowerCycle),
        MonitorCmd::Volume => n == o && outcome_is(out, seq![], FrontAction::Volume(arg)),
        MonitorCmd::ReadRam => n == o && match a16 {
            None => only_log(out, bad16),
            Some(start) => if arg2@.len() == 0 {
                only_log(out, dump_text(o, start as u16, if start + 0xFF > 0xFFFF { 0xFFFFu16 } else { (start + 0xFF) as u16 }))
            } else {
                match hex_reading(arg2@, 0xFFFF) {
                    Some(end) => only_log(out, dump_text(o, start as u16, end as u16)),
                    None => only_log(out, seq![not_hex_text("a 16-bit"@, arg2@)]),
                }
            },
        },
        MonitorCmd::Trace => if arg@.len() == 0 {
            n == o && only_log(out, seq![status_text(o.tracer.mode, o.tracer.entries@.len())])
        } else if arg@ == "on"@ || arg@ == "calls"@ {
            &&& n == (Machine { tracer: n.tracer, ..o })
            &&& n.tracer.mode == if arg@ == "on"@ { TraceMode::All } else { TraceMode::Branches }
            &&& n.tracer.entries@.len() == 0
            &&& only_log(out, seq![if arg@ == "on"@ {
                "Trace started (every instruction)."@
            } else {
                "Trace started (jumps, calls and returns only)."@
            }])
        } else if arg@ == "off"@ {
            &&& n == (Machine { tracer: n.tracer, ..o })
            &&& n.tracer.mode == TraceMode::Off
            &&& n.tracer.entries@ == o.tracer.entries@
            &&& only_log(out, seq!["Trace stopped. "@ + decimal(o.tracer.entries@.len()) + " instruction(s) kept."@])
        } else if arg@ == "dump"@ {
            n == o && outcome_is(out, seq![], FrontAction::TraceDump(match decimal_reading(arg2@, usize::MAX as nat) {
                Some(k) => k as usize,
                None => 32usize,
            }))
        } else if arg@ == "save"@ {
            n == o && if arg2@.len() == 0 {
                only_log(out, seq![usage_trace_save()])
            } else {
                outcome_is(out, seq![], FrontAction::TraceSave(arg2))
            }
        } else {
            n == o && only_log(out, seq![usage_trace()])
        },
    }
}

/// Nothing shown, `action` left to the front end.
fn act(action: FrontAction) -> (o: CommandOutcome)
    ensures
        outcome_is(o, seq![], action),
{
    let log: Vec<String> = Vec::new();
    assert(texts(log@) =~= seq![]);
    CommandOutcome { log, action }
}

/// `line` shown, nothing left to do.
fn say(line: String) -> (o: CommandOutcome)
    ensures
        only_log(o, seq![line@]),
{
    let mut log: Vec<String> = Vec::new();
    log.push(line);
    assert(texts(log@) =~= seq![line@]);
    CommandOutcome { log, action: FrontAction::Nothing }
}

/// `text` followed by the address `a` in hexadecimal, then `tail`.
fn address_line(text: &str, a: u16, tail: &str) -> (s: String)
    ensures
        s@ == text@ + hex_word(a) + tail@,
{
    let mut s = String::from_str(text);
    push_hex_word(&mut s, a);
    s.append(tail);
    s
}

/// Whether `arg` names drive B.
fn is_drive_b(arg2: &String) -> (b: bool)
    ensures
        b == names_drive_b(arg2@),
{
    same_text(arg2.as_str(), "b") || same_text(arg2.as_str(), "B")
}

/// The line of the RAM dump row at `addr`.
fn dump_row(m: &Machine, addr: u16) -> (s: String)
    requires
        m.wf(),
    ensures
        s@ == row_text(*m, addr),
{
    let row = m.ram_row(addr);
    let ghost b = row_bytes(*m, addr);
    assert(row@ =~= b);
    let mut s = String::new();
    push_hex4(&mut s, addr);
    s.append("  ");
    let ghost head = s@;
    let mut i: usize = 0;
    while i < 16
        invariant
            i <= 16,
            row@ == b,
            s@ == head + hex_items(b, i as int),
        decreases 16 - i,
    {
        if i > 0 {
            s.append(" ");
        }
        push_hex2(&mut s, row[i]);
        i += 1;
    }
    s.append("  ");
    let ghost head2 = s@;
    proof {
        reveal_strlit(" !\"#$%&'()*+,-./0123456789:;<=>?@ABCDEFGHIJKLMNOPQRSTUVWXYZ[\\]^_`abcdefghijklmnopqrstuvwxyz{|}~");
    }
    let mut i: usize = 0;
    while i < 16
        invariant
            i <= 16,
            row@ == b,
            PRINTABLE@.len() == 95,
            s@ == head2 + Seq::new(i as nat, |k: int| shown_char(b[k])),
        decreases 16 - i,
    {
        let c = row[i];
        if 0x20 <= c && c < 0x7F {
            let k = (c - 0x20) as usize;
            s.append(PRINTABLE.substring_char(k, k + 1));
        } else {
            s.append(".");
            proof { reveal_strlit("."); }
        }
        assert(s@ =~= head2 + Seq::new((i + 1) as nat, |k: int| shown_char(b[k])));
        i += 1;
    }
    s
}

/// The lines of a RAM dump from `start` to `end`.
fn dump(m: &Machine, start: u16, end: u16) -> (lines: Vec<String>)
    requires
        m.wf(),
    ensures
        texts(lines@) == dump_text(*m, start, end),
{
    let mut lines: Vec<String> = Vec::new();
    let mut addr = start;
    let ghost rows = dump_rows(start, end);
    loop
        invariant_except_break
            lines@.len() < rows,
            addr as int == start + 16 * lines@.len(),
        invariant
            m.wf(),
            rows == dump_rows(start, end),
            forall|k: int| 0 <= k < lines@.len() ==> #[trigger] lines@[k]@ == row_text(*m, (start + 16 * k) as u16),
        ensures
            lines@.len() == rows,
            forall|k: int| 0 <= k < lines@.len() ==> #[trigger] lines@[k]@ == row_text(*m, (start + 16 * k) as u16),
        decreases rows - lines@.len(),
    {
        let ghost before = lines@;
        lines.push(dump_row(m, addr));
        proof {
            assert forall|k: int| 0 <= k < lines@.len() implies #[trigger] lines@[k]@ == row_text(*m, (start + 16 * k) as u16) by {
                if k < before.len() {
                    assert(lines@[k] == before[k]);
                }
            }
        }
        let ghost l = before.len() as int;
        if addr <= 0xFFFF - 16 && addr + 16 <= end {
            proof {
                assert(start + 16 * (l + 1) <= end);
                assert(l + 1 < rows) by (nonlinear_arith)
                    requires start + 16 * (l + 1) <= end, end >= start, rows == (end - start) / 16 + 1, l >= 0;
            }
            addr = addr + 16;
        } else {
            proof {
                if end >= start {
                    assert(start + 16 * (l + 1) > end);
                    assert(l + 1 >= rows) by (nonlinear_arith)
                        requires start + 16 * (l + 1) > end, end >= start, rows == (end - start) / 16 + 1, l >= 0;
                }
            }
            break;
        }
    }
    assert(texts(lines@) =~= dump_text(*m, start, end));
    lines
}

/// Runs command `msg` on `m` (see `command_effect`).
pub fn apply_command(m: &mut Machine, msg: &MonitorMessage) -> (out: CommandOutcome)
    requires
        old(m).wf(),
    ensures
        final(m).wf(),
        command_effect(*old(m), *msg, *final(m), out),
{
    let cmd = &msg.0;
    let arg = &msg.1;
    let arg2 = &msg.2;
    proof {
        reveal_strlit("");
        reveal_strlit("kb");
        reveal_strlit("keyboard");
        reveal_strlit("eject");
        reveal_strlit("save");
        reveal_strlit("load");
        reveal_strlit("on");
        reveal_strlit("calls");
        reveal_strlit("off");
        reveal_strlit("dump");
        reveal_strlit("b");
        reveal_strlit("B");
    }
    match cmd {
        MonitorCmd::Help => act(FrontAction::ShowHelp),
        MonitorCmd::Unknown => say(String::from_str("Unknown command")),
        MonitorCmd::Pause => {
            m.stop();
            say(String::from_str("Emulation paused !"))
        },
        MonitorCmd::Resume => {
            m.start();
            say(String::from_str("Emulation resumed !"))
        },
        MonitorCmd::Hardware => {
            if same_text(arg.as_str(), "kb") || same_text(arg.as_str(), "keyboard") {
                m.waiting_for_key = true;
                say(String::from_str("Waiting for a key press on the CPC window to show matrix status..."))
            } else {
                act(FrontAction::ShowHardware)
            }
        },
        MonitorCmd::Registers => act(FrontAction::ShowRegisters),
        MonitorCmd::ReadMem => match hex_u16(arg.as_str()) {
            Ok(a) => act(FrontAction::ReadMem(a)),
            Err(e) => say(e),
        },
        MonitorCmd::WriteMem => match hex_u16(arg.as_str()) {
            Err(e) => say(e),
            Ok(a) => match hex_u8(arg2.as_str()) {
                Err(e) => say(e),
                Ok(v) => {
                    m.bus.write_byte(a, v);
                    act(FrontAction::WroteMem(a, v))
                },
            },
        },
        MonitorCmd::SearchMem => match hex_u8(arg.as_str()) {
            Ok(v) => act(FrontAction::SearchMem(v)),
            Err(e) => say(e),
        },
        MonitorCmd::ListBreakpoints => act(FrontAction::ListBreakpoints),
        MonitorCmd::ListWatchpoints => act(FrontAction::ListWatchpoints),
        MonitorCmd::AddBreakpoint => match hex_u16(arg.as_str()) {
            Err(e) => say(e),
            Ok(a) => {
                m.add_breakpoint(a);
                say(address_line("New breakpoint at ", a, ""))
            },
        },
        MonitorCmd::RemoveBreakpoint => match hex_u16(arg.as_str()) {
            Err(e) => say(e),
            Ok(a) => {
                if m.remove_breakpoint(a) {
                    say(address_line("Breakpoint at ", a, " removed"))
                } else {
                    act(FrontAction::Nothing)
                }
            },
        },
        MonitorCmd::AddWatchpoint => match hex_u16(arg.as_str()) {
            Err(e) => say(e),
            Ok(a) => {
                m.add_watchpoint(a);
                say(address_line("New watchpoint at ", a, ""))
            },
        },
        MonitorCmd::RemoveWatchpoint => match hex_u16(arg.as_str()) {
            Err(e) => say(e),
            Ok(a) => {
                if m.remove_watchpoint(a) {
                    say(address_line("Watchpoint at ", a, " removed"))
                } else {
                    act(FrontAction::Nothing)
                }
            },
        },
        MonitorCmd::Step => act(FrontAction::Step),
        MonitorCmd::StepLine => act(FrontAction::StepLine),
        MonitorCmd::Disassemble => match hex_u16(arg.as_str()) {
            Ok(a) => act(FrontAction::Disassemble(a)),
            Err(e) => say(e),
        },
        MonitorCmd::Jump => match hex_u16(arg.as_str()) {
            Ok(a) => act(FrontAction::Jump(a)),
            Err(e) => say(e),
        },
        MonitorCmd::Disk => {
            let drive_b = is_drive_b(arg2);
            if same_text(arg.as_str(), "eject") {
                if drive_b {
                    m.bus.fdc.eject_disk_b();
                } else {
                    m.bus.fdc.eject_disk();
                }
                act(FrontAction::Nothing)
            } else {
                act(FrontAction::LoadDisk(arg.clone(), drive_b))
            }
        },
        MonitorCmd::Blank => {
            if arg.as_str().unicode_len() == 0 {
                say(String::from_str("Usage: blank <file> [b]"))
            } else {
                act(FrontAction::BlankDisk(arg.clone(), is_drive_b(arg2)))
            }
        },
        MonitorCmd::Tape => {
            if same_text(arg.as_str(), "eject") {
                m.bus.tape.eject();
                say(String::from_str("Tape ejected."))
            } else if arg.as_str().unicode_len() == 0 {
                say(String::from_str("Usage: tape <file> | tape eject"))
            } else {
                act(FrontAction::LoadTape(arg.clone()))
            }
        },
        MonitorCmd::Snapshot => {
            let a = arg.as_str();
            let a2_empty = arg2.as_str().unicode_len() == 0;
            if same_text(a, "save") && !a2_empty {
                act(FrontAction::SaveSnapshot(arg2.clone()))
            } else if same_text(a, "load") && !a2_empty {
                act(FrontAction::LoadSnapshot(arg2.clone()))
            } else if a.unicode_len() > 0 && a2_empty && !same_text(a, "save") && !same_text(a, "load") {
                act(FrontAction::SaveSnapshot(arg.clone()))
            } else {
                say(String::from_str("Usage: snap <file> | snap load <file>"))
            }
        },
        MonitorCmd::PowerCycle => act(FrontAction::PowerCycle),
        MonitorCmd::Volume => act(FrontAction::Volume(arg.clone())),
        MonitorCmd::ReadRam => match hex_u16(arg.as_str()) {
            Err(e) => say(e),
            Ok(start) => {
                let end = if arg2.as_str().unicode_len() == 0 {
                    Ok(if start > 0xFFFF - 0xFF { 0xFFFFu16 } else { start + 0xFF })
                } else {
                    hex_u16(arg2.as_str())
                };
                match end {
                    Err(e) => say(e),
                    Ok(end) => {
                        let log = dump(m, start, end);
                        CommandOutcome { log, action: FrontAction::Nothing }
                    },
                }
            },
        },
        MonitorCmd::Trace => {
            let a = arg.as_str();
            if a.unicode_len() == 0 {
                say(m.tracer.status())
            } else if same_text(a, "on") {
                m.tracer.start(TraceMode::All);
                say(String::from_str("Trace started (every instruction)."))
            } else if same_text(a, "calls") {
                m.tracer.start(TraceMode::Branches);
                say(String::from_str("Trace started (jumps, calls and returns only)."))
            } else if same_text(a, "off") {
                m.tracer.stop();
                let mut s = String::from_str("Trace stopped. ");
                push_decimal(&mut s, m.tracer.len() as u64);
                s.append(" instruction(s) kept.");
                say(s)
            } else if same_text(a, "dump") {
                let count = match read_decimal(arg2.as_str(), usize::MAX as u64) {
                    Some(k) => k as usize,
                    None => 32,
                };
                act(FrontAction::TraceDump(count))
            } else if same_text(a, "save") {
                if arg2.as_str().unicode_len() == 0 {
                    say(String::from_str("Usage: t save <file>"))
                } else {
                    act(FrontAction::TraceSave(arg2.clone()))
                }
            } else {
                say(String::from_str("Usage: t | t on | t calls | t off | t dump [n] | t save <file>"))
            }
        },
    }
}

} // verus!
