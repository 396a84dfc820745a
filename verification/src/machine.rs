//! The emulated machine around its Z80: how long an instruction lasts on
//! a CPC, what real time a number of emulated cycles stands for, and what
//! happens on the bus between two instructions (breakpoints, watchpoints,
//! trace, the scanlines swept and the interrupts they raise). The Z80
//! itself is driven by the front end, which hands each instruction's
//! length to `Machine::finish_instruction`.

use crate::bus::CpcBus;
use crate::engine::crtc::{crtc_steps, lemma_crtc_steps_one_more, Crtc};
use crate::engine::memory::Memory;
use crate::engine::trace::{TraceMode, Tracer};
use crate::engine::video::{capture_scanline_chars, captured_bytes};
use crate::engine::ppi::Ppi;
use crate::gate_array::{hsync_step, GateArray, GateArrayState};
use crate::psg::{apply_due, key_position, still_pending, Psg};
use crate::engine::keys::Keycode;
use crate::sound::PSG_CLOCK;
use std::collections::HashSet;
use std::time::Duration;
use vstd::prelude::*;

verus! {

/// Length of a Z80 cycle at 4 MHz, in nanoseconds.
pub const CPU_TICK_NANOS: u64 = 250;

/// The `Duration` of `nanos` nanoseconds.
pub uninterp spec fn duration_of_nanos(nanos: u64) -> Duration;

/// Builds the `Duration` of `nanos` nanoseconds.
///
/// Trusted: calls `std::time::Duration::from_nanos`, whose result depends on
/// its argument alone; it is named, not described.
#[verifier::external_body]
fn from_nanos(n: u64) -> (d: Duration)
    ensures
        d == duration_of_nanos(n),
{
    Duration::from_nanos(n)
}

/// Real time matching a number of emulated Z80 cycles. The only reliable
/// measure to pace the emulator: the frame length the CRTC registers
/// announce is not that of the frame just emulated when a game
/// reprograms them mid-frame.
pub fn emulated_duration(ticks: u32) -> (d: Duration)
    ensures
        d == duration_of_nanos((ticks as u64 * CPU_TICK_NANOS) as u64),
{
    from_nanos(ticks as u64 * CPU_TICK_NANOS)
}

/// Duration of an instruction on a CPC, from its nominal Z80 length: the
/// GA chip opens the memory to the Z80 once per microsecond only, so
/// every instruction lasts a whole number of microseconds, a multiple of 4
/// clock cycles (the whole instruction is rounded up).
pub fn cpc_instruction_time(nominal_ticks: u32) -> (t: u32)
    requires
        nominal_ticks <= u32::MAX - 3,
    ensures
        t == (nominal_ticks as int + 3) / 4 * 4,
        t % 4 == 0,
        nominal_ticks <= t < nominal_ticks + 4,
{
    (nominal_ticks + 3) / 4 * 4
}

/// Labels of the keys of the matrix, row by row (row * 8 + bit), as
/// printed on the French keyboard (the US letter in brackets where they
/// differ); row 9 holds joystick A and DEL.
pub const KEY_NAMES: [&'static str; 80] = [
    "Up", "Right", "Down", "Kp 9", "Kp 6", "Kp 3", "Kp Enter", "Kp .",
    "Left", "Copy", "Kp 7", "Kp 8", "Kp 5", "Kp 1", "Kp 2", "Kp 0",
    "Clr", "*", "Enter", "#", "Kp 4", "Shift", "$", "Ctrl",
    "-", ")", "^", "P", "ù", "M", "=", ":",
    "0", "9", "O", "I", "L", "K", ",", ";",
    "8", "7", "U", "Y", "H", "J", "N", "Space",
    "6", "5", "R", "T", "G", "F", "B", "V",
    "4", "3", "E", "Z (W)", "S", "D", "C", "X",
    "1", "2", "Escape", "A (Q)", "Tab", "Q (A)", "CapsLock", "W (Z)",
    "Joy A Up", "Joy A Down", "Joy A Left", "Joy A Right", "Joy A Fire 1", "Joy A Fire 2", "Joy A Fire 3", "Del",
];

/// What the main loop does after a frame: wait `sleep` nanoseconds (none
/// when late), then aim at the deadline `next`; `late` when the frame
/// missed its deadline.
#[derive(Clone, Copy, Debug, PartialEq, Eq, Structural)]
pub struct FramePace {
    pub sleep: u64,
    pub next: u64,
    pub late: bool,
}

/// Pacing of the frames on an absolute deadline rather than a fixed sleep
/// (a fixed sleep makes the period "computation + sleep", durably too
/// slow). `now` and `deadline` are instants in nanoseconds from a common
/// origin, `frame` the emulated duration of the frame just run. On time:
/// sleep until the deadline, the next one a frame later. Late: no sleep,
/// the next deadline a frame from now; the time lost is never caught up,
/// which would race the emulated machine. (Instants far beyond 500 years
/// saturate.)
pub fn pace_frame(now: u64, deadline: u64, frame: u64) -> (p: FramePace)
    ensures
        now < deadline ==> p == (FramePace {
            sleep: (deadline - now) as u64,
            next: if deadline + frame <= u64::MAX { (deadline + frame) as u64 } else { u64::MAX },
            late: false,
        }),
        now >= deadline ==> p == (FramePace {
            sleep: 0,
            next: if now + frame <= u64::MAX { (now + frame) as u64 } else { u64::MAX },
            late: true,
        }),
{
    if now < deadline {
        FramePace { sleep: deadline - now, next: deadline.saturating_add(frame), late: false }
    } else {
        FramePace { sleep: 0, next: now.saturating_add(frame), late: true }
    }
}

/// Label of the key at (line, bit) of the matrix.
pub fn key_name(line: usize, bit: u8) -> (name: &'static str)
    ensures
        name == if line < 10 && bit < 8 { KEY_NAMES[line as int * 8 + bit as int] } else { "Unknown" },
{
    if line < 10 && bit < 8 {
        KEY_NAMES[line * 8 + bit as usize]
    } else {
        "Unknown"
    }
}

/// The letter or digit printed on a host letter or digit key (the main
/// row's digits), none for the other keys.
pub open spec fn host_character(k: Keycode) -> Option<char> {
    match k {
        Keycode::A => Some('A'),
        Keycode::B => Some('B'),
        Keycode::C => Some('C'),
        Keycode::D => Some('D'),
        Keycode::E => Some('E'),
        Keycode::F => Some('F'),
        Keycode::G => Some('G'),
        Keycode::H => Some('H'),
        Keycode::I => Some('I'),
        Keycode::J => Some('J'),
        Keycode::K => Some('K'),
        Keycode::L => Some('L'),
        Keycode::M => Some('M'),
        Keycode::N => Some('N'),
        Keycode::O => Some('O'),
        Keycode::P => Some('P'),
        Keycode::Q => Some('Q'),
        Keycode::R => Some('R'),
        Keycode::S => Some('S'),
        Keycode::T => Some('T'),
        Keycode::U => Some('U'),
        Keycode::V => Some('V'),
        Keycode::W => Some('W'),
        Keycode::X => Some('X'),
        Keycode::Y => Some('Y'),
        Keycode::Z => Some('Z'),
        Keycode::Num0 => Some('0'),
        Keycode::Num1 => Some('1'),
        Keycode::Num2 => Some('2'),
        Keycode::Num3 => Some('3'),
        Keycode::Num4 => Some('4'),
        Keycode::Num5 => Some('5'),
        Keycode::Num6 => Some('6'),
        Keycode::Num7 => Some('7'),
        Keycode::Num8 => Some('8'),
        Keycode::Num9 => Some('9'),
        _ => None,
    }
}

/// Each host letter or digit key lands, without SHIFT, on the CPC key
/// that bears the same letter or digit (the first character of its label
/// in `KEY_NAMES`, the CPC's own key names: "Y" on row 5 bit 3, "H" on
/// row 5 bit 4, "A (Q)" for the AZERTY A, "7" on row 5 bit 1), so that
/// typing one gives it; two different ones therefore land on two
/// different keys.
pub proof fn lemma_letters_land_on_their_keys(k: Keycode, k2: Keycode)
    ensures
        host_character(k) is Some ==> {
            let p = key_position(k);
            let ((line, bit), shift) = p->0;
            &&& p is Some
            &&& !shift
            &&& line < 10 && bit < 8
            &&& KEY_NAMES[line as int * 8 + bit as int]@[0] == host_character(k)->0
        },
        host_character(k) is Some && host_character(k2) is Some && host_character(k) != host_character(k2)
            ==> key_position(k) != key_position(k2),
{
    lemma_letter_key_label(k);
    lemma_letter_key_label(k2);
}

/// `lemma_letters_land_on_their_keys` for one key.
proof fn lemma_letter_key_label(k: Keycode)
    ensures
        host_character(k) is Some ==> {
            let p = key_position(k);
            let ((line, bit), shift) = p->0;
            &&& p is Some
            &&& !shift
            &&& line < 10 && bit < 8
            &&& KEY_NAMES[line as int * 8 + bit as int]@[0] == host_character(k)->0
        },
{
    match k {
        Keycode::A => {
            reveal_strlit("A (Q)");
            assert(KEY_NAMES[67int]@ == "A (Q)"@);
        },
        Keycode::B => {
            reveal_strlit("B");
            assert(KEY_NAMES[54int]@ == "B"@);
        },
        Keycode::C => {
            reveal_strlit("C");
            assert(KEY_NAMES[62int]@ == "C"@);
        },
        Keycode::D => {
            reveal_strlit("D");
            assert(KEY_NAMES[61int]@ == "D"@);
        },
        Keycode::E => {
            reveal_strlit("E");
            assert(KEY_NAMES[58int]@ == "E"@);
        },
        Keycode::F => {
            reveal_strlit("F");
            assert(KEY_NAMES[53int]@ == "F"@);
        },
        Keycode::G => {
            reveal_strlit("G");
            assert(KEY_NAMES[52int]@ == "G"@);
        },
        Keycode::H => {
            reveal_strlit("H");
            assert(KEY_NAMES[44int]@ == "H"@);
        },
        Keycode::I => {
            reveal_strlit("I");
            assert(KEY_NAMES[35int]@ == "I"@);
        },
        Keycode::J => {
            reveal_strlit("J");
            assert(KEY_NAMES[45int]@ == "J"@);
        },
        Keycode::K => {
            reveal_strlit("K");
            assert(KEY_NAMES[37int]@ == "K"@);
        },
        Keycode::L => {
            reveal_strlit("L");
            assert(KEY_NAMES[36int]@ == "L"@);
        },
        Keycode::M => {
            reveal_strlit("M");
            assert(KEY_NAMES[29int]@ == "M"@);
        },
        Keycode::N => {
            reveal_strlit("N");
            assert(KEY_NAMES[46int]@ == "N"@);
        },
        Keycode::O => {
            reveal_strlit("O");
            assert(KEY_NAMES[34int]@ == "O"@);
        },
        Keycode::P => {
            reveal_strlit("P");
            assert(KEY_NAMES[27int]@ == "P"@);
        },
        Keycode::Q => {
            reveal_strlit("Q (A)");
            assert(KEY_NAMES[69int]@ == "Q (A)"@);
        },
        Keycode::R => {
            reveal_strlit("R");
            assert(KEY_NAMES[50int]@ == "R"@);
        },
        Keycode::S => {
            reveal_strlit("S");
            assert(KEY_NAMES[60int]@ == "S"@);
        },
        Keycode::T => {
            reveal_strlit("T");
            assert(KEY_NAMES[51int]@ == "T"@);
        },
        Keycode::U => {
            reveal_strlit("U");
            assert(KEY_NAMES[42int]@ == "U"@);
        },
        Keycode::V => {
            reveal_strlit("V");
            assert(KEY_NAMES[55int]@ == "V"@);
        },
        Keycode::W => {
            reveal_strlit("W (Z)");
            assert(KEY_NAMES[71int]@ == "W (Z)"@);
        },
        Keycode::X => {
            reveal_strlit("X");
            assert(KEY_NAMES[63int]@ == "X"@);
        },
        Keycode::Y => {
            reveal_strlit("Y");
            assert(KEY_NAMES[43int]@ == "Y"@);
        },
        Keycode::Z => {
            reveal_strlit("Z (W)");
            assert(KEY_NAMES[59int]@ == "Z (W)"@);
        },
        Keycode::Num0 => {
            reveal_strlit("0");
            assert(KEY_NAMES[32int]@ == "0"@);
        },
        Keycode::Num1 => {
            reveal_strlit("1");
            assert(KEY_NAMES[64int]@ == "1"@);
        },
        Keycode::Num2 => {
            reveal_strlit("2");
            assert(KEY_NAMES[65int]@ == "2"@);
        },
        Keycode::Num3 => {
            reveal_strlit("3");
            assert(KEY_NAMES[57int]@ == "3"@);
        },
        Keycode::Num4 => {
            reveal_strlit("4");
            assert(KEY_NAMES[56int]@ == "4"@);
        },
        Keycode::Num5 => {
            reveal_strlit("5");
            assert(KEY_NAMES[49int]@ == "5"@);
        },
        Keycode::Num6 => {
            reveal_strlit("6");
            assert(KEY_NAMES[48int]@ == "6"@);
        },
        Keycode::Num7 => {
            reveal_strlit("7");
            assert(KEY_NAMES[41int]@ == "7"@);
        },
        Keycode::Num8 => {
            reveal_strlit("8");
            assert(KEY_NAMES[40int]@ == "8"@);
        },
        Keycode::Num9 => {
            reveal_strlit("9");
            assert(KEY_NAMES[33int]@ == "9"@);
        },
        _ => {},
    }
}

/// Labels of the keys down in a row read `val` (a bit at 0 is a key
/// down), bits taken from 0 to `upto` - 1.
pub open spec fn pressed_names(line: usize, val: u8, upto: nat) -> Seq<&'static str>
    decreases upto,
{
    if upto == 0 {
        Seq::empty()
    } else {
        let rest = pressed_names(line, val, (upto - 1) as nat);
        let b = (upto - 1) as u8;
        if val & (1u8 << b) == 0 { rest.push(KEY_NAMES[line as int * 8 + b as int]) } else { rest }
    }
}

/// Labels of the keys down in row `line` of the matrix read `val`, from
/// bit 0 to bit 7.
pub fn pressed_key_names(line: usize, val: u8) -> (names: Vec<&'static str>)
    requires
        line < 10,
    ensures
        names@ == pressed_names(line, val, 8),
{
    let mut names: Vec<&'static str> = Vec::new();
    let mut bit: u8 = 0;
    while bit < 8
        invariant
            bit <= 8,
            line < 10,
            names@ == pressed_names(line, val, bit as nat),
        decreases 8 - bit,
    {
        if (val & (1u8 << bit)) == 0 {
            names.push(key_name(line, bit));
        }
        bit += 1;
    }
    names
}

/// What is heard from one channel of the PSG, decoded from its registers.
#[derive(Clone, Copy, Debug, PartialEq, Eq, Structural)]
pub struct ChannelSummary {
    /// Tone period: 12 bits over the two registers of the channel.
    pub period: u16,
    /// Tone frequency in Hz: the PSG clock over 16 periods (0 for a null
    /// period).
    pub frequency: u32,
    /// Mixer bits at 0 enable the tone and the noise.
    pub tone_on: bool,
    pub noise_on: bool,
    /// Amplitude bit 4: the envelope gives the volume.
    pub envelope: bool,
    /// Fixed volume (0-15).
    pub volume: u8,
}

/// The registers of channel `channel` (0 for A, 1 for B, 2 for C) read as a
/// musician would: period and frequency, tone and noise enabled, volume.
pub fn channel_summary(regs: &[u8; 16], channel: usize) -> (c: ChannelSummary)
    requires
        channel < 3,
    ensures
        c.period == regs[2 * channel as int] as u16 | ((regs[2 * channel as int + 1] as u16 & 0x0F) << 8u16),
        c.frequency as int == if c.period == 0 { 0 } else { PSG_CLOCK as int / (16 * c.period as int) },
        c.tone_on == ((regs[7] >> channel as u8) & 1 == 0),
        c.noise_on == ((regs[7] >> (channel as u8 + 3)) & 1 == 0),
        c.envelope == (regs[8 + channel as int] & 0x10 != 0),
        c.volume == regs[8 + channel as int] & 0x0F,
{
    let fine = regs[2 * channel] as u16;
    let coarse = regs[2 * channel + 1] as u16;
    let period: u16 = fine | ((coarse & 0x0F) << 8u16);
    let frequency: u32 = if period == 0 {
        0
    } else {
        assert((coarse & 0x0F) << 8u16 <= 0x0F00 && fine <= 0xFF && (fine | ((coarse & 0x0F) << 8u16)) <= 0x0FFF) by (bit_vector)
            requires fine <= 0xFF;
        PSG_CLOCK / (16 * period as u32)
    };
    let mixer = regs[7];
    let amplitude = regs[8 + channel];
    let c = channel as u8;
    ChannelSummary {
        period,
        frequency,
        tone_on: (mixer >> c) & 1 == 0,
        noise_on: (mixer >> (c + 3)) & 1 == 0,
        envelope: amplitude & 0x10 != 0,
        volume: amplitude & 0x0F,
    }
}

/// Failures of the machine's start-up and file handling.
#[derive(Clone, Copy, Debug, PartialEq, Eq, Structural)]
pub enum MachineError {
    ConfigFile,
    ConfigFileFmt,
    IOError,
    SendMsgError,
    SnapshotError,
    DisplayError,
    FontError,
}

impl MachineError {
    /// What the error says to the user.
    pub open spec fn text(self) -> Seq<char> {
        match self {
            MachineError::ConfigFileFmt => "Bad config file format"@,
            MachineError::ConfigFile => "Can't load config file"@,
            MachineError::IOError => "I/O Error"@,
            MachineError::SendMsgError => "Message not sent"@,
            MachineError::SnapshotError => "Snapshot I/O error"@,
            MachineError::DisplayError => "SDL3 error"@,
            MachineError::FontError => "Can't load font"@,
        }
    }

    /// What the error says to the user.
    pub fn message(&self) -> (m: &'static str)
        ensures
            m@ == self.text(),
    {
        match self {
            MachineError::ConfigFileFmt => "Bad config file format",
            MachineError::ConfigFile => "Can't load config file",
            MachineError::IOError => "I/O Error",
            MachineError::SendMsgError => "Message not sent",
            MachineError::SnapshotError => "Snapshot I/O error",
            MachineError::DisplayError => "SDL3 error",
            MachineError::FontError => "Can't load font",
        }
    }
}

/// Scanlines remembered per frame: far more than the 312 of a standard
/// frame, to cover non-standard screens.
pub const MAX_CAPTURED_SCANLINES: usize = 512;

/// How many unimplemented instructions are reported before falling silent.
pub const UNIMPLEMENTED_REPORTS: u32 = 10;

/// Length of an instruction on a CPC, from the Z80's nominal count (an
/// instruction reported with no cycles counts as a NOP).
pub open spec fn elapsed_ticks(nominal_ticks: u32) -> u32 {
    let n = if nominal_ticks == 0 { 4 } else { nominal_ticks as int };
    ((n + 3) / 4 * 4) as u32
}

/// What happened after an instruction.
#[derive(Clone, Copy, Debug, PartialEq, Eq, Structural)]
pub enum StepOutcome {
    /// A write hit a watchpoint at this address: the machine stopped.
    WatchpointHit(u16),
    /// The instruction lasted `elapsed` cycles, during which the GA chip
    /// raised `interrupts` interrupts.
    Ran { elapsed: u32, interrupts: u32 },
}

/// Which memory a CPU address reads.
#[derive(Clone, Copy, Debug, PartialEq, Eq, Structural)]
pub enum AddressSource {
    RomLow,
    /// Upper ROM `rom` read for the selection `selected` (an absent number
    /// reads the ROM 0).
    RomHigh { rom: usize, selected: u8 },
    /// RAM bank of 16 KB.
    Ram { bank: usize },
}

/// How many of `bs` are true.
pub open spec fn count_true(bs: Seq<bool>) -> nat
    decreases bs.len(),
{
    if bs.len() == 0 { 0 } else { count_true(bs.drop_last()) + if bs.last() { 1nat } else { 0nat } }
}

/// `ms` are the machine before and after each of `bs.len()` scanlines
/// swept one after the other, `bs` whether each raised an interrupt.
pub open spec fn swept_chain(ms: Seq<Machine>, bs: Seq<bool>) -> bool {
    &&& ms.len() == bs.len() + 1
    &&& forall|j: int| 0 <= j < bs.len() ==> #[trigger] ms[j].scanline_swept(bs[j], ms[j + 1])
}

/// The machine between two Z80 instructions.
pub struct Machine {
    pub bus: CpcBus,
    pub total_ticks: u64,
    /// Cycles into the current scanline (64 µs, 256 cycles).
    pub hsync_accumulator: u32,
    pub current_line: u32,
    /// Set when VSYNC starts: the frame is complete and can be shown.
    pub frame_ready: bool,
    /// State of the GA chip at the start of each scanline of the frame:
    /// rendering uses it rather than the current state, or a mode or
    /// palette change mid-frame would apply to the whole screen.
    pub scanline_states: Vec<GateArrayState>,
    /// Video bytes shown on each scanline, captured when the CRTC sweeps
    /// it: a sprite routine interrupted mid-way must not show half-drawn
    /// because the frame was drawn at another moment.
    pub scanline_vram: Vec<Vec<u8>>,
    /// Whether the diagnostic ROM is used instead of the CPC 6128's.
    pub diagnostic_mode: bool,
    pub tracer: Tracer,
    pub breakpoints: HashSet<u16>,
    pub running: bool,
    pub stopped_at_breakpoint: bool,
    /// The hardware status with the keyboard matrix waits for a key press.
    pub waiting_for_key: bool,
    /// Frame length really swept (from one VSYNC start to the next) and
    /// interrupts raised in it: a frame too long gives the same symptoms as
    /// a machine too slow.
    pub measured_frame_lines: u32,
    pub lines_since_vsync: u32,
    pub measured_interrupts_per_frame: u32,
    pub interrupts_since_vsync: u32,
    /// Unimplemented instructions already reported.
    pub unimplemented_reported: u32,
}

impl Machine {
    /// The bus is consistent, a scanline part-way, and one slot per
    /// scanline.
    pub open spec fn wf(&self) -> bool {
        &&& self.bus.wf()
        &&& self.hsync_accumulator < 256
        &&& self.scanline_states@.len() == MAX_CAPTURED_SCANLINES
        &&& self.scanline_vram@.len() == MAX_CAPTURED_SCANLINES
    }

    /// A machine just switched on: fresh chips around a memory with
    /// `extra_ram_banks` groups of extra RAM, drive B present or not,
    /// running.
    pub fn new(extra_ram_banks: u32, drive_b_enabled: bool) -> (m: Machine)
        ensures
            m.wf(),
            m.running,
            m.total_ticks == 0,
            m.hsync_accumulator == 0,
            m.bus.fdc.drive_b_enabled == drive_b_enabled,
            m.bus.watchpoints@ == Set::<u16>::empty(),
            m.breakpoints@ == Set::<u16>::empty(),
            m.measured_frame_lines == 312,
            m.measured_interrupts_per_frame == 6,
            m.bus.memory.fresh(extra_ram_banks),
            m.bus.chips_powered_on(drive_b_enabled),
            m.bus.watchpoint_hit is None,
            m.current_line == 0,
            !m.frame_ready,
            !m.stopped_at_breakpoint,
            !m.waiting_for_key,
            !m.diagnostic_mode,
            m.tracer.mode == TraceMode::Off && m.tracer.entries@.len() == 0,
            m.lines_since_vsync == 0,
            m.interrupts_since_vsync == 0,
            m.unimplemented_reported == 0,
            forall|k: int| 0 <= k < MAX_CAPTURED_SCANLINES ==> (#[trigger] m.scanline_states@[k]) == (GateArrayState {
                video_mode: m.bus.gate_array.video_mode,
                palette: m.bus.gate_array.palette,
            }),
    {
        let mut bus = CpcBus::new(Memory::new(extra_ram_banks));
        bus.fdc.set_drive_b_enabled(drive_b_enabled);
        let state = bus.gate_array.state();
        let mut scanline_states: Vec<GateArrayState> = Vec::new();
        let mut scanline_vram: Vec<Vec<u8>> = Vec::new();
        let mut i: usize = 0;
        while i < MAX_CAPTURED_SCANLINES
            invariant
                i <= MAX_CAPTURED_SCANLINES,
                scanline_states@.len() == i,
                scanline_vram@.len() == i,
                forall|k: int| 0 <= k < i ==> (#[trigger] scanline_states@[k]) == state,
            decreases MAX_CAPTURED_SCANLINES - i,
        {
            scanline_states.push(state);
            scanline_vram.push(Vec::new());
            i += 1;
        }
        Machine {
            bus,
            total_ticks: 0,
            hsync_accumulator: 0,
            current_line: 0,
            frame_ready: false,
            scanline_states,
            scanline_vram,
            diagnostic_mode: false,
            tracer: Tracer::new(),
            breakpoints: HashSet::new(),
            running: true,
            stopped_at_breakpoint: false,
            waiting_for_key: false,
            measured_frame_lines: 312,
            lines_since_vsync: 0,
            measured_interrupts_per_frame: 6,
            interrupts_since_vsync: 0,
            unimplemented_reported: 0,
        }
    }

    pub fn start(&mut self)
        ensures
            *final(self) == (Machine { running: true, ..*old(self) }),
    {
        self.running = true;
    }

    pub fn stop(&mut self)
        ensures
            *final(self) == (Machine { running: false, ..*old(self) }),
    {
        self.running = false;
    }

    pub fn is_running(&self) -> (r: bool)
        ensures
            r == self.running,
    {
        self.running
    }

    /// Before an instruction at `pc`: a breakpoint there stops the machine
    /// (true), once; the instruction then runs when execution resumes.
    pub fn check_breakpoint(&mut self, pc: u16) -> (stop: bool)
        ensures
            stop == (old(self).breakpoints@.contains(pc) && !old(self).stopped_at_breakpoint),
            *final(self) == (if stop {
                Machine { running: false, stopped_at_breakpoint: true, ..*old(self) }
            } else {
                Machine { stopped_at_breakpoint: false, ..*old(self) }
            }),
    {
        broadcast use vstd::std_specs::hash::group_hash_axioms;
        if self.breakpoints.contains(&pc) && !self.stopped_at_breakpoint {
            self.running = false;
            self.stopped_at_breakpoint = true;
            true
        } else {
            self.stopped_at_breakpoint = false;
            false
        }
    }

    /// Before an instruction at `pc`, with the stack at `sp`: the trace, if
    /// recording, takes it with the four bytes at `pc` as they are now.
    pub fn record_instruction(&mut self, pc: u16, sp: u16)
        requires
            old(self).wf(),
        ensures
            final(self).wf(),
            old(self).tracer.mode == TraceMode::Off ==> *final(self) == *old(self),
            old(self).tracer.mode != TraceMode::Off ==> {
                let m = old(self).bus.memory;
                let opcode = [m.value(pc), m.value(pc.wrapping_add(1)), m.value(pc.wrapping_add(2)), m.value(pc.wrapping_add(3))];
                &&& final(self).tracer.mode == old(self).tracer.mode
                &&& final(self).tracer.entries@ == old(self).tracer.entries_after(pc, sp, opcode)
                &&& *final(self) == (Machine { tracer: final(self).tracer, ..*old(self) })
            },
    {
        if self.tracer.is_recording() {
            let opcode = [
                self.bus.read_byte(pc),
                self.bus.read_byte(pc.wrapping_add(1)),
                self.bus.read_byte(pc.wrapping_add(2)),
                self.bus.read_byte(pc.wrapping_add(3)),
            ];
            self.tracer.record(pc, sp, opcode);
        }
    }

    /// Effect of one scanline swept (every 256 cycles), `interrupt` being
    /// whether the GA chip raised one: the CRTC moves to the next scanline,
    /// the frame is complete when VSYNC starts (which also closes the
    /// measurement of the frame just swept), the new scanline's slot
    /// remembers the GA chip's state and the video bytes it shows, port B
    /// carries VSYNC (and selects joystick A), and the GA chip counts the
    /// HSYNC, resynchronised on the rising edge of VSYNC.
    pub open spec fn scanline_swept(self, interrupt: bool, n: Machine) -> bool {
        let starts = self.bus.crtc.vsync_starts();
        let crtc = self.bus.crtc.next_scanline();
        let line = crtc.scanline as int;
        let ga = self.bus.gate_array;
        let (c, d, i) = hsync_step(ga.hsync_counter, ga.vsync_delay, starts);
        let lines = self.lines_since_vsync.wrapping_add(1);
        let r1 = crtc.registers[1] as int;
        let b0 = if crtc.vsync { self.bus.ppi.port_b_input | 0x01 } else { self.bus.ppi.port_b_input & !0x01u8 };
        &&& interrupt == i
        &&& n.bus == (CpcBus { crtc, gate_array: n.bus.gate_array, ppi: n.bus.ppi, ..self.bus })
        &&& n.bus.gate_array == (GateArray {
            hsync_counter: c,
            vsync_delay: d,
            interrupt_requested: ga.interrupt_requested || i,
            ..ga
        })
        &&& n.bus.ppi == (Ppi { port_b_input: b0 | 0x02, ..self.bus.ppi })
        &&& n.current_line == crtc.scanline
        &&& n.frame_ready == (self.frame_ready || starts)
        &&& n.measured_frame_lines == if starts { lines } else { self.measured_frame_lines }
        &&& n.lines_since_vsync == if starts { 0 } else { lines }
        &&& n.measured_interrupts_per_frame == if starts { self.interrupts_since_vsync } else { self.measured_interrupts_per_frame }
        &&& n.interrupts_since_vsync == (if starts { 0u32 } else { self.interrupts_since_vsync }).wrapping_add(if i { 1 } else { 0 })
        &&& n.scanline_states@ == if line < MAX_CAPTURED_SCANLINES {
            self.scanline_states@.update(line, GateArrayState { video_mode: ga.video_mode, palette: ga.palette })
        } else {
            self.scanline_states@
        }
        &&& n.scanline_vram@.len() == self.scanline_vram@.len()
        &&& forall|k: int| 0 <= k < self.scanline_vram@.len() && k != line ==> n.scanline_vram@[k] == self.scanline_vram@[k]
        &&& line < MAX_CAPTURED_SCANLINES ==> n.scanline_vram@[line]@ == if r1 == 0 || crtc.char_row >= crtc.registers[6] {
            Seq::<u8>::empty()
        } else {
            captured_bytes(crtc, self.bus.memory.ram@, 0, r1)
        }
        &&& n == (Machine {
            bus: n.bus,
            current_line: n.current_line,
            frame_ready: n.frame_ready,
            measured_frame_lines: n.measured_frame_lines,
            lines_since_vsync: n.lines_since_vsync,
            measured_interrupts_per_frame: n.measured_interrupts_per_frame,
            interrupts_since_vsync: n.interrupts_since_vsync,
            scanline_states: n.scanline_states,
            scanline_vram: n.scanline_vram,
            ..self
        })
    }

    /// One scanline swept (see `scanline_swept`).
    fn scanline(&mut self) -> (interrupt: bool)
        requires
            old(self).wf(),
        ensures
            final(self).wf(),
            old(self).scanline_swept(interrupt, *final(self)),
    {
        let vsync_start = self.bus.crtc.step_scanline();
        self.current_line = self.bus.crtc.scanline;
        self.frame_ready = self.frame_ready || vsync_start;
        self.lines_since_vsync = self.lines_since_vsync.wrapping_add(1);
        if vsync_start {
            self.measured_frame_lines = self.lines_since_vsync;
            self.lines_since_vsync = 0;
            self.measured_interrupts_per_frame = self.interrupts_since_vsync;
            self.interrupts_since_vsync = 0;
        }
        let line = self.bus.crtc.scanline as usize;
        if line < self.scanline_states.len() {
            let state = self.bus.gate_array.state();
            self.scanline_states.set(line, state);
        }
        if line < self.scanline_vram.len() {
            let mut bytes: Vec<u8> = Vec::new();
            capture_scanline_chars(&self.bus.crtc, &self.bus.memory, &mut bytes, u32::MAX);
            self.scanline_vram.set(line, bytes);
        }
        self.bus.ppi.set_system_port_b(self.bus.crtc.vsync, true);
        let interrupt = self.bus.gate_array.step_hsync(vsync_start);
        if interrupt {
            self.interrupts_since_vsync = self.interrupts_since_vsync.wrapping_add(1);
        }
        interrupt
    }

    /// After an instruction of `nominal_ticks` Z80 cycles, the GA chip having
    /// its interrupt acknowledged if `interrupt_acknowledged` (the Z80 took
    /// the pending request during it). A watchpoint hit stops the machine
    /// there. Otherwise the instruction lasts `elapsed_ticks` cycles on the
    /// CPC, the pending key changes come closer by as many, and the
    /// scanlines completed meanwhile are swept; the interrupts they raised
    /// are returned for the Z80.
    #[verifier::rlimit(60)]
    pub fn finish_instruction(&mut self, nominal_ticks: u32, interrupt_acknowledged: bool) -> (o: StepOutcome)
        requires
            old(self).wf(),
            nominal_ticks <= u32::MAX - 3,
        ensures
            final(self).wf(),
            ({
                let ga = if interrupt_acknowledged {
                    GateArray { hsync_counter: old(self).bus.gate_array.hsync_counter & 0x1F, interrupt_requested: false, ..old(self).bus.gate_array }
                } else {
                    old(self).bus.gate_array
                };
                match old(self).bus.watchpoint_hit {
                    Some(addr) => {
                        &&& o == StepOutcome::WatchpointHit(addr)
                        &&& *final(self) == (Machine {
                            running: false,
                            bus: CpcBus { watchpoint_hit: None, gate_array: ga, ..old(self).bus },
                            ..*old(self)
                        })
                    },
                    None => {
                        let t = elapsed_ticks(nominal_ticks);
                        let lines = (old(self).hsync_accumulator + t) / 256;
                        &&& o matches StepOutcome::Ran { elapsed, interrupts } && elapsed == t && interrupts <= lines
                            && exists|ms: Seq<Machine>, bs: Seq<bool>| {
                                &&& swept_chain(ms, bs)
                                &&& bs.len() == lines
                                &&& ms[0] == (Machine {
                                    bus: CpcBus { gate_array: ga, psg: ms[0].bus.psg, ..old(self).bus },
                                    total_ticks: old(self).total_ticks.wrapping_add(t as u64),
                                    ..*old(self)
                                })
                                &&& ms[0].bus.psg == (Psg {
                                    keyboard_matrix: ms[0].bus.psg.keyboard_matrix,
                                    deferred: ms[0].bus.psg.deferred,
                                    ..old(self).bus.psg
                                })
                                &&& *final(self) == (Machine { hsync_accumulator: final(self).hsync_accumulator, ..ms[lines as int] })
                                &&& interrupts == count_true(bs)
                            }
                        &&& final(self).total_ticks == old(self).total_ticks.wrapping_add(t as u64)
                        &&& final(self).hsync_accumulator == (old(self).hsync_accumulator + t) % 256
                        &&& final(self).bus.crtc == crtc_steps(old(self).bus.crtc, lines as nat)
                        &&& final(self).bus.psg.keyboard_matrix@ == apply_due(old(self).bus.psg.keyboard_matrix@, old(self).bus.psg.deferred@, t)
                        &&& final(self).bus.psg.deferred@ == still_pending(old(self).bus.psg.deferred@, t)
                        &&& lines == 0 ==> final(self).bus.gate_array == ga
                        &&& final(self).running == old(self).running
                        &&& final(self).breakpoints == old(self).breakpoints
                        &&& final(self).tracer == old(self).tracer
                        &&& final(self).bus.memory == old(self).bus.memory
                        &&& final(self).bus.fdc == old(self).bus.fdc
                        &&& final(self).bus.watchpoints == old(self).bus.watchpoints
                        &&& final(self).bus.watchpoint_hit is None
                    },
                }
            }),
    {
        if interrupt_acknowledged {
            let c = self.bus.gate_array.hsync_counter;
            assert(c & 0x1F <= c) by (bit_vector);
            self.bus.gate_array.acknowledge_interrupt();
        }
        if let Some(addr) = self.bus.watchpoint_hit {
            self.bus.watchpoint_hit = None;
            self.running = false;
            return StepOutcome::WatchpointHit(addr);
        }
        let elapsed = cpc_instruction_time(if nominal_ticks == 0 { 4 } else { nominal_ticks });
        self.total_ticks = self.total_ticks.wrapping_add(elapsed as u64);
        self.bus.psg.tick(elapsed);

        let ghost crtc0 = self.bus.crtc;
        let ghost ga1 = self.bus.gate_array;
        let ghost acc0 = self.hsync_accumulator;
        let ghost m0 = *self;
        let ghost mut ms: Seq<Machine> = seq![*self];
        let ghost mut bs: Seq<bool> = Seq::empty();
        let total: u64 = self.hsync_accumulator as u64 + elapsed as u64;
        let mut remaining: u64 = total;
        let mut interrupts: u32 = 0;
        let mut done: u64 = 0;
        while remaining >= 256
            invariant
                self.wf(),
                remaining + 256 * done == total,
                total == acc0 + elapsed,
                acc0 < 256,
                elapsed <= u32::MAX,
                interrupts <= done,
                done == 0 ==> self.bus.gate_array == ga1,
                self.bus.crtc == crtc_steps(crtc0, done as nat),
                self.running == old(self).running,
                self.breakpoints == old(self).breakpoints,
                self.tracer == old(self).tracer,
                self.bus.memory == old(self).bus.memory,
                self.bus.fdc == old(self).bus.fdc,
                self.bus.watchpoints == old(self).bus.watchpoints,
                self.bus.watchpoint_hit is None,
                self.total_ticks == old(self).total_ticks.wrapping_add(elapsed as u64),
                self.bus.psg.keyboard_matrix@ == apply_due(old(self).bus.psg.keyboard_matrix@, old(self).bus.psg.deferred@, elapsed),
                self.bus.psg.deferred@ == still_pending(old(self).bus.psg.deferred@, elapsed),
                swept_chain(ms, bs),
                bs.len() == done,
                ms[0] == m0,
                ms[done as int] == *self,
                interrupts == count_true(bs),
            decreases remaining,
        {
            remaining -= 256;
            let ghost before = self.bus.crtc;
            let ghost prev = *self;
            proof {
                lemma_crtc_steps_one_more(crtc0, done as nat);
            }
            let raised = self.scanline();
            if raised {
                interrupts += 1;
            }
            proof {
                let bs2 = bs.push(raised);
                let ms2 = ms.push(*self);
                assert(bs2.drop_last() =~= bs);
                assert forall|j: int| 0 <= j < bs2.len() implies #[trigger] ms2[j].scanline_swept(bs2[j], ms2[j + 1]) by {
                    if j < bs.len() {
                        assert(ms2[j] == ms[j] && ms2[j + 1] == ms[j + 1] && bs2[j] == bs[j]);
                    } else {
                        assert(ms2[j] == prev && ms2[j + 1] == *self && bs2[j] == raised);
                    }
                }
                bs = bs2;
                ms = ms2;
            }
            done += 1;
        }
        self.hsync_accumulator = remaining as u32;
        proof {
            assert(done == total / 256 && remaining == total % 256) by (nonlinear_arith)
                requires remaining + 256 * done == total, remaining < 256;
            assert(*self == (Machine { hsync_accumulator: self.hsync_accumulator, ..ms[done as int] }));
            assert(ms[0].bus.psg == (Psg {
                keyboard_matrix: ms[0].bus.psg.keyboard_matrix,
                deferred: ms[0].bus.psg.deferred,
                ..old(self).bus.psg
            }));
        }
        StepOutcome::Ran { elapsed, interrupts }
    }

    /// Which memory the CPU reads at `addr`: the lower ROM when enabled
    /// below &4000, the upper ROM really read when enabled from &C000 and
    /// one answers, otherwise the RAM bank mapped there.
    pub open spec fn source_of(&self, addr: u16) -> AddressSource {
        let m = self.bus.memory;
        if addr < 0x4000 && m.rom_low_enabled {
            AddressSource::RomLow
        } else if addr >= 0xC000 && m.rom_high_enabled && m.upper_rom() is Some {
            AddressSource::RomHigh { rom: m.upper_rom()->0, selected: m.selected_high_rom }
        } else {
            AddressSource::Ram { bank: (m.physical(addr) / 16384) as usize }
        }
    }

    /// Which memory the CPU reads at `addr` (see `source_of`).
    pub fn address_source(&self, addr: u16) -> (s: AddressSource)
        requires
            self.wf(),
        ensures
            s == self.source_of(addr),
    {
        if addr < 0x4000 && self.bus.memory.rom_low_enabled {
            AddressSource::RomLow
        } else if addr >= 0xC000 && self.bus.memory.rom_high_enabled && self.bus.memory.effective_high_rom().is_some() {
            match self.bus.memory.effective_high_rom() {
                Some(rom) => AddressSource::RomHigh { rom, selected: self.bus.memory.selected_high_rom },
                None => AddressSource::RomLow,
            }
        } else {
            let phys = self.bus.memory.get_ram_physical_address(addr);
            AddressSource::Ram { bank: phys / 16384 }
        }
    }

    /// Every address whose byte, as the CPU reads it, is `val`, in
    /// increasing order.
    pub fn search_memory(&self, val: u8) -> (found: Vec<u16>)
        requires
            self.wf(),
        ensures
            forall|i: int, j: int| 0 <= i < j < found@.len() ==> found@[i] < found@[j],
            forall|a: u16| found@.contains(a) <==> self.bus.memory.value(a) == val,
    {
        let mut found: Vec<u16> = Vec::new();
        let mut addr: u32 = 0;
        while addr <= 0xFFFF
            invariant
                addr <= 0x10000,
                self.wf(),
                forall|i: int, j: int| 0 <= i < j < found@.len() ==> found@[i] < found@[j],
                forall|i: int| 0 <= i < found@.len() ==> found@[i] < addr,
                forall|a: u16| a < addr ==> (found@.contains(a) <==> self.bus.memory.value(a) == val),
            decreases 0x10000 - addr,
        {
            let a = addr as u16;
            let ghost prev = found@;
            if self.bus.read_byte(a) == val {
                found.push(a);
            }
            proof {
                assert(found@ == prev.push(a) || found@ == prev);
                assert forall|b: u16| b < addr + 1 implies (found@.contains(b) <==> self.bus.memory.value(b) == val) by {
                    if prev.contains(b) {
                        let k = choose|k: int| 0 <= k < prev.len() && prev[k] == b;
                        assert(found@[k] == b);
                    }
                    if found@.contains(b) {
                        let k = choose|k: int| 0 <= k < found@.len() && found@[k] == b;
                        if k < prev.len() {
                            assert(prev[k] == b);
                        }
                    }
                    if b == a && self.bus.memory.value(b) == val {
                        assert(found@[found@.len() - 1] == b);
                    }
                }
            }
            addr += 1;
        }
        found
    }

    /// Adds a breakpoint at `addr`.
    pub fn add_breakpoint(&mut self, addr: u16)
        ensures
            final(self).breakpoints@ == old(self).breakpoints@.insert(addr),
            *final(self) == (Machine { breakpoints: final(self).breakpoints, ..*old(self) }),
    {
        broadcast use vstd::std_specs::hash::group_hash_axioms;
        self.breakpoints.insert(addr);
    }

    /// Removes the breakpoint at `addr`; whether there was one.
    pub fn remove_breakpoint(&mut self, addr: u16) -> (was: bool)
        ensures
            was == old(self).breakpoints@.contains(addr),
            final(self).breakpoints@ == old(self).breakpoints@.remove(addr),
            *final(self) == (Machine { breakpoints: final(self).breakpoints, ..*old(self) }),
    {
        broadcast use vstd::std_specs::hash::group_hash_axioms;
        self.breakpoints.remove(&addr)
    }

    /// Adds a watchpoint at `addr`: a write there stops the machine.
    pub fn add_watchpoint(&mut self, addr: u16)
        ensures
            final(self).bus.watchpoints@ == old(self).bus.watchpoints@.insert(addr),
            *final(self) == (Machine { bus: CpcBus { watchpoints: final(self).bus.watchpoints, ..old(self).bus }, ..*old(self) }),
    {
        broadcast use vstd::std_specs::hash::group_hash_axioms;
        self.bus.watchpoints.insert(addr);
    }

    /// Removes the watchpoint at `addr`; whether there was one.
    pub fn remove_watchpoint(&mut self, addr: u16) -> (was: bool)
        ensures
            was == old(self).bus.watchpoints@.contains(addr),
            final(self).bus.watchpoints@ == old(self).bus.watchpoints@.remove(addr),
            *final(self) == (Machine { bus: CpcBus { watchpoints: final(self).bus.watchpoints, ..old(self).bus }, ..*old(self) }),
    {
        broadcast use vstd::std_specs::hash::group_hash_axioms;
        self.bus.watchpoints.remove(&addr)
    }

    /// The 16 RAM bytes from `addr` (wrapping at the top of memory), under
    /// the current banking but ignoring the ROMs: on a CPC user code lives
    /// under the lower ROM.
    pub fn ram_row(&self, addr: u16) -> (row: [u8; 16])
        requires
            self.wf(),
        ensures
            forall|i: int| 0 <= i < 16 ==> row[i] == self.bus.memory.ram@[self.bus.memory.physical(((addr as int + i) % 0x10000) as u16)],
    {
        let mut row = [0u8; 16];
        let mut i: usize = 0;
        while i < 16
            invariant
                i <= 16,
                self.wf(),
                forall|k: int| 0 <= k < i ==> row[k] == self.bus.memory.ram@[self.bus.memory.physical(((addr as int + k) % 0x10000) as u16)],
            decreases 16 - i,
        {
            let a = addr.wrapping_add(i as u16);
            assert(a == ((addr as int + i) % 0x10000) as u16);
            row[i] = self.bus.memory.read_ram_byte(a);
            i += 1;
        }
        row
    }

    /// Whether an unimplemented instruction just met is still to be
    /// reported: only the first ones are, so that one caught in a loop does
    /// not flood the console.
    pub fn note_unimplemented(&mut self) -> (report: bool)
        ensures
            report == (old(self).unimplemented_reported < UNIMPLEMENTED_REPORTS),
            *final(self) == (Machine {
                unimplemented_reported: if report { (old(self).unimplemented_reported + 1) as u32 } else { old(self).unimplemented_reported },
                ..*old(self)
            }),
    {
        if self.unimplemented_reported < UNIMPLEMENTED_REPORTS {
            self.unimplemented_reported += 1;
            true
        } else {
            false
        }
    }
}

} // verus!
