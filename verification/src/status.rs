//! The hardware status the monitor's `hw` command shows: the GA chip and
//! the memory, the CRTC, the PPI, the PSG, the frame, the floppy
//! controller and the tape, and the keyboard matrix, as lines of text.
//! The lines that need the host's measurements (emulation speed, frame
//! rate, sound buffer, late frames) are the front end's to add.

use crate::bus::CpcBus;
use crate::fdc::FdcPhase;
use crate::machine::{channel_summary, pressed_key_names, pressed_names, Machine};
use crate::sound::PSG_CLOCK;
use crate::text::{
    binary8, bool_text, decimal, decimal_left, decimal_right, hex_byte, push_binary8, push_bool, push_decimal,
    push_decimal_left, push_decimal_right, push_hex_byte,
};
use vstd::prelude::*;
use vstd::string::*;

verus! {

/// The texts of `lines`.
pub open spec fn texts(lines: Seq<String>) -> Seq<Seq<char>> {
    Seq::new(lines.len(), |i: int| lines[i]@)
}

/// `"R" + k + "=" + v` padded to 3, then a space, for registers `a` to
/// `b` - 1 of `regs`.
pub open spec fn register_items(regs: Seq<u8>, a: int, b: int) -> Seq<char>
    decreases b - a,
{
    if b <= a {
        Seq::empty()
    } else {
        register_items(regs, a, b - 1) + "R"@ + decimal((b - 1) as nat) + "="@
            + decimal_left(regs[b - 1] as nat, 3) + " "@
    }
}

/// The palette items: `Inks[k]=v ` for the 16 inks, then `Border:v `.
pub open spec fn ink_items(palette: Seq<u8>, n: int) -> Seq<char>
    decreases n,
{
    if n <= 0 {
        Seq::empty()
    } else if n - 1 == 16 {
        ink_items(palette, n - 1) + "Border:"@ + decimal(palette[16] as nat) + " "@
    } else {
        ink_items(palette, n - 1) + "Inks["@ + decimal((n - 1) as nat) + "]="@ + decimal(palette[n - 1] as nat) + " "@
    }
}

/// Appends the items of registers `a` to `b` - 1.
fn push_register_items(s: &mut String, regs: &[u8], a: usize, b: usize)
    requires
        a <= b <= regs@.len(),
    ensures
        final(s)@ == old(s)@ + register_items(regs@, a as int, b as int),
{
    let mut k = a;
    while k < b
        invariant
            a <= k <= b <= regs@.len(),
            s@ == old(s)@ + register_items(regs@, a as int, k as int),
        decreases b - k,
    {
        s.append("R");
        push_decimal(s, k as u64);
        s.append("=");
        push_decimal_left(s, regs[k] as u64, 3);
        s.append(" ");
        k += 1;
    }
}

/// The lines of the GA chip and memory section.
pub open spec fn ga_lines_text(bus: CpcBus) -> Seq<Seq<char>> {
    let ga = bus.gate_array;
    let mem = bus.memory;
    seq![
        "=== CPC HARDWARE STATUS ==="@,
        Seq::empty(),
        "[GA chip & Memory]"@,
        "  Video Mode         : "@ + decimal(ga.video_mode as nat),
        "  Selected Pen       : "@ + decimal(ga.selected_pen as nat),
        "  HSYNC Counter      : "@ + decimal(ga.hsync_counter as nat) + "/52"@,
        "  Interrupt Requested: "@ + bool_text(ga.interrupt_requested),
        "  Low ROM Enabled    : "@ + bool_text(mem.rom_low_enabled),
        "  High ROM Enabled   : "@ + bool_text(mem.rom_high_enabled),
        "  Selected High ROM  : "@ + decimal(mem.selected_high_rom as nat),
        "  RAM Configuration  : Bank Config "@ + decimal(mem.ram_config as nat),
        "  Palette (HW index) : "@ + ink_items(ga.palette@, 17),
    ]
}

/// The lines of the GA chip and memory section, headed by the title.
pub fn ga_lines(bus: &CpcBus) -> (lines: Vec<String>)
    ensures
        texts(lines@) == ga_lines_text(*bus),
{
    let ga = &bus.gate_array;
    let mem = &bus.memory;
    let mut lines: Vec<String> = Vec::new();
    lines.push(String::from_str("=== CPC HARDWARE STATUS ==="));
    lines.push(String::new());
    lines.push(String::from_str("[GA chip & Memory]"));
    let mut s = String::from_str("  Video Mode         : ");
    push_decimal(&mut s, ga.video_mode as u64);
    lines.push(s);
    let mut s = String::from_str("  Selected Pen       : ");
    push_decimal(&mut s, ga.selected_pen as u64);
    lines.push(s);
    let mut s = String::from_str("  HSYNC Counter      : ");
    push_decimal(&mut s, ga.hsync_counter as u64);
    s.append("/52");
    lines.push(s);
    let mut s = String::from_str("  Interrupt Requested: ");
    push_bool(&mut s, ga.interrupt_requested);
    lines.push(s);
    let mut s = String::from_str("  Low ROM Enabled    : ");
    push_bool(&mut s, mem.rom_low_enabled);
    lines.push(s);
    let mut s = String::from_str("  High ROM Enabled   : ");
    push_bool(&mut s, mem.rom_high_enabled);
    lines.push(s);
    let mut s = String::from_str("  Selected High ROM  : ");
    push_decimal(&mut s, mem.selected_high_rom as u64);
    lines.push(s);
    let mut s = String::from_str("  RAM Configuration  : Bank Config ");
    push_decimal(&mut s, mem.ram_config as u64);
    lines.push(s);
    let mut s = String::from_str("  Palette (HW index) : ");
    let ghost head = s@;
    let mut i: usize = 0;
    while i < 17
        invariant
            i <= 17,
            s@ == head + ink_items(ga.palette@, i as int),
        decreases 17 - i,
    {
        if i == 16 {
            s.append("Border:");
        } else {
            s.append("Inks[");
            push_decimal(&mut s, i as u64);
            s.append("]=");
        }
        push_decimal(&mut s, ga.palette[i] as u64);
        s.append(" ");
        i += 1;
    }
    lines.push(s);
    assert(texts(lines@) =~= ga_lines_text(*bus));
    lines
}

/// The lines of the CRTC section.
pub open spec fn crtc_lines_text(bus: CpcBus) -> Seq<Seq<char>> {
    let c = bus.crtc;
    seq![
        Seq::empty(),
        "[CRTC 6845]"@,
        "  Selected Register  : R"@ + decimal(c.selected_register as nat),
        "  Scanline           : "@ + decimal(c.scanline as nat) + "/"@ + decimal(c.frame_length() as nat)
            + " (char row "@ + decimal(c.char_row as nat) + ", raster "@ + decimal(c.raster as nat) + ")"@,
        "  VSYNC              : "@ + bool_text(c.vsync),
        "  Registers          : "@ + register_items(c.registers@, 0, 9),
        "                       "@ + register_items(c.registers@, 9, 18),
    ]
}

/// The lines of the CRTC section.
pub fn crtc_lines(bus: &CpcBus) -> (lines: Vec<String>)
    ensures
        texts(lines@) == crtc_lines_text(*bus),
{
    let c = &bus.crtc;
    let mut lines: Vec<String> = Vec::new();
    lines.push(String::new());
    lines.push(String::from_str("[CRTC 6845]"));
    let mut s = String::from_str("  Selected Register  : R");
    push_decimal(&mut s, c.selected_register as u64);
    lines.push(s);
    let mut s = String::from_str("  Scanline           : ");
    push_decimal(&mut s, c.scanline as u64);
    s.append("/");
    push_decimal(&mut s, c.frame_scanlines() as u64);
    s.append(" (char row ");
    push_decimal(&mut s, c.char_row as u64);
    s.append(", raster ");
    push_decimal(&mut s, c.raster as u64);
    s.append(")");
    lines.push(s);
    let mut s = String::from_str("  VSYNC              : ");
    push_bool(&mut s, c.vsync);
    lines.push(s);
    let mut s = String::from_str("  Registers          : ");
    push_register_items(&mut s, &c.registers, 0, 9);
    lines.push(s);
    let mut s = String::from_str("                       ");
    push_register_items(&mut s, &c.registers, 9, 18);
    lines.push(s);
    assert(texts(lines@) =~= crtc_lines_text(*bus));
    lines
}

/// The lines of the PPI section.
pub open spec fn ppi_lines_text(bus: CpcBus) -> Seq<Seq<char>> {
    let p = bus.ppi;
    seq![
        Seq::empty(),
        "[PPI 8255]"@,
        "  Port A (PSG Data)  : "@ + hex_byte(p.port_a),
        "  Port B (System)    : "@ + hex_byte(p.port_b_input) + " (VSYNC: "@ + bool_text(p.port_b_input & 0x01 != 0)
            + ")"@,
        "  Port C (Control)   : "@ + hex_byte(p.port_c) + " (PSG Control: "@ + hex_byte(p.port_c & 0xC0)
            + ", KB Line: "@ + decimal((p.port_c & 0x0F) as nat) + ")"@,
        "  Control Register   : "@ + hex_byte(p.control_register),
    ]
}

/// The lines of the PPI section.
pub fn ppi_lines(bus: &CpcBus) -> (lines: Vec<String>)
    ensures
        texts(lines@) == ppi_lines_text(*bus),
{
    let p = &bus.ppi;
    let mut lines: Vec<String> = Vec::new();
    lines.push(String::new());
    lines.push(String::from_str("[PPI 8255]"));
    let mut s = String::from_str("  Port A (PSG Data)  : ");
    push_hex_byte(&mut s, p.port_a);
    lines.push(s);
    let mut s = String::from_str("  Port B (System)    : ");
    push_hex_byte(&mut s, p.port_b_input);
    s.append(" (VSYNC: ");
    push_bool(&mut s, p.port_b_input & 0x01 != 0);
    s.append(")");
    lines.push(s);
    let mut s = String::from_str("  Port C (Control)   : ");
    push_hex_byte(&mut s, p.port_c);
    s.append(" (PSG Control: ");
    push_hex_byte(&mut s, p.port_c & 0xC0);
    s.append(", KB Line: ");
    push_decimal(&mut s, (p.port_c & 0x0F) as u64);
    s.append(")");
    lines.push(s);
    let mut s = String::from_str("  Control Register   : ");
    push_hex_byte(&mut s, p.control_register);
    lines.push(s);
    assert(texts(lines@) =~= ppi_lines_text(*bus));
    lines
}

/// "on " or "off".
pub open spec fn on_off(b: bool) -> Seq<char> {
    if b { "on "@ } else { "off"@ }
}

/// The line of channel `c` (0 to 2), named `name`, the envelope at
/// volume `env`.
pub open spec fn channel_line_text(regs: [u8; 16], c: int, name: Seq<char>, env: u8) -> Seq<char> {
    let period = (regs[2 * c] as u16 | ((regs[2 * c + 1] as u16 & 0x0F) << 8u16)) as int;
    let frequency = if period == 0 { 0 } else { PSG_CLOCK as int / (16 * period) };
    let volume = if regs[8 + c] & 0x10 != 0 { "env ("@ + decimal(env as nat) + ")"@ } else {
        decimal((regs[8 + c] & 0x0F) as nat)
    };
    "  Channel "@ + name + "          : period "@ + decimal_left(period as nat, 4) + " ("@
        + decimal_right(frequency as nat, 5) + " Hz)  tone "@ + on_off((regs[7] >> c as u8) & 1 == 0)
        + "  noise "@ + on_off((regs[7] >> (c + 3) as u8) & 1 == 0) + "  volume "@ + volume
}

/// The line of channel `c`.
fn channel_line(regs: &[u8; 16], c: usize, name: &str, env: u8) -> (s: String)
    requires
        c < 3,
    ensures
        s@ == channel_line_text(*regs, c as int, name@, env),
{
    let cs = channel_summary(regs, c);
    let mut s = String::from_str("  Channel ");
    s.append(name);
    s.append("          : period ");
    push_decimal_left(&mut s, cs.period as u64, 4);
    s.append(" (");
    push_decimal_right(&mut s, cs.frequency as u64, 5);
    s.append(" Hz)  tone ");
    if cs.tone_on { s.append("on ") } else { s.append("off") }
    s.append("  noise ");
    if cs.noise_on { s.append("on ") } else { s.append("off") }
    s.append("  volume ");
    if cs.envelope {
        s.append("env (");
        push_decimal(&mut s, env as u64);
        s.append(")");
    } else {
        push_decimal(&mut s, cs.volume as u64);
    }
    s
}

/// The lines of the PSG section, the envelope at volume `env`.
pub open spec fn psg_lines_text(bus: CpcBus, env: u8) -> Seq<Seq<char>> {
    let p = bus.psg;
    let r = p.registers;
    seq![
        Seq::empty(),
        "[PSG AY-3-8912]"@,
        "  Selected Register  : R"@ + decimal(p.selected_register as nat),
        "  Registers          : "@ + register_items(r@, 0, 8),
        "                       "@ + register_items(r@, 8, 16),
        channel_line_text(r, 0, "A"@, env),
        channel_line_text(r, 1, "B"@, env),
        channel_line_text(r, 2, "C"@, env),
        "  Noise period       : "@ + decimal((r[6] & 0x1F) as nat),
        "  Envelope           : shape "@ + hex_byte(r[13]) + "  period "@
            + decimal((r[11] as int + 256 * r[12] as int) as nat) + "  volume "@ + decimal(env as nat),
    ]
}

/// The lines of the PSG section, the envelope at volume `env` (the
/// sound generators' state, which the front end holds).
pub fn psg_lines(bus: &CpcBus, env: u8) -> (lines: Vec<String>)
    ensures
        texts(lines@) == psg_lines_text(*bus, env),
{
    let p = &bus.psg;
    let r = &p.registers;
    let mut lines: Vec<String> = Vec::new();
    lines.push(String::new());
    lines.push(String::from_str("[PSG AY-3-8912]"));
    let mut s = String::from_str("  Selected Register  : R");
    push_decimal(&mut s, p.selected_register as u64);
    lines.push(s);
    let mut s = String::from_str("  Registers          : ");
    push_register_items(&mut s, r, 0, 8);
    lines.push(s);
    let mut s = String::from_str("                       ");
    push_register_items(&mut s, r, 8, 16);
    lines.push(s);
    lines.push(channel_line(r, 0, "A", env));
    lines.push(channel_line(r, 1, "B", env));
    lines.push(channel_line(r, 2, "C", env));
    let mut s = String::from_str("  Noise period       : ");
    push_decimal(&mut s, (r[6] & 0x1F) as u64);
    lines.push(s);
    let mut s = String::from_str("  Envelope           : shape ");
    push_hex_byte(&mut s, r[13]);
    s.append("  period ");
    push_decimal(&mut s, r[11] as u64 + 256 * r[12] as u64);
    s.append("  volume ");
    push_decimal(&mut s, env as u64);
    lines.push(s);
    assert(texts(lines@) =~= psg_lines_text(*bus, env));
    lines
}

/// The frame lines that need no measurement of the host: the frame the
/// registers describe, and the interrupts counted over the last frame.
pub open spec fn frame_lines_text(m: Machine) -> Seq<Seq<char>> {
    seq![
        "  Frame (registers)  : "@ + decimal(m.bus.crtc.frame_length() as nat) + " scanlines"@,
        "  Interrupts / frame : "@ + decimal(m.measured_interrupts_per_frame as nat),
    ]
}

/// The frame lines that need no measurement of the host.
pub fn frame_lines(m: &Machine) -> (lines: Vec<String>)
    ensures
        texts(lines@) == frame_lines_text(*m),
{
    let mut lines: Vec<String> = Vec::new();
    let mut s = String::from_str("  Frame (registers)  : ");
    push_decimal(&mut s, m.bus.crtc.frame_scanlines() as u64);
    s.append(" scanlines");
    lines.push(s);
    let mut s = String::from_str("  Interrupts / frame : ");
    push_decimal(&mut s, m.measured_interrupts_per_frame as u64);
    lines.push(s);
    assert(texts(lines@) =~= frame_lines_text(*m));
    lines
}

/// The name of a drive's disc, "None" when empty.
pub open spec fn disc_name(loaded: bool, name: Seq<char>) -> Seq<char> {
    if loaded { name } else { "None"@ }
}

/// The lines of the floppy and tape section.
pub open spec fn drive_lines_text(bus: CpcBus) -> Seq<Seq<char>> {
    let f = bus.fdc;
    let access = f.phase == FdcPhase::ExecutionRead || f.phase == FdcPhase::ExecutionWrite;
    seq![
        Seq::empty(),
        "[FDC]"@,
        "  Motor On           : "@ + bool_text(f.motor_on),
        "  Disk access        : "@ + if access { "\u{25CF}"@ } else { " "@ },
        "  Drive A            : "@ + disc_name(f.drive_a.disk_loaded, f.drive_a.current_filename@),
        "  Drive B            : "@ + if f.drive_b_enabled {
            disc_name(f.drive_b.disk_loaded, f.drive_b.current_filename@)
        } else {
            "disabled (config.toml)"@
        },
        "  Tape               : "@ + match bus.tape.current_filename {
            Some(n) => n@,
            None => "None"@,
        } + if bus.tape.motor_on { " (motor on)"@ } else { Seq::empty() },
    ]
}

/// Appends the name of a drive's disc, "None" when empty.
fn push_disc_name(s: &mut String, loaded: bool, name: &String)
    ensures
        final(s)@ == old(s)@ + disc_name(loaded, name@),
{
    if loaded { s.append(name.as_str()) } else { s.append("None") }
}

/// The lines of the floppy and tape section.
pub fn drive_lines(bus: &CpcBus) -> (lines: Vec<String>)
    ensures
        texts(lines@) == drive_lines_text(*bus),
{
    let f = &bus.fdc;
    let mut lines: Vec<String> = Vec::new();
    lines.push(String::new());
    lines.push(String::from_str("[FDC]"));
    let mut s = String::from_str("  Motor On           : ");
    push_bool(&mut s, f.motor_on);
    lines.push(s);
    let access = matches!(f.phase, FdcPhase::ExecutionRead) || matches!(f.phase, FdcPhase::ExecutionWrite);
    let mut s = String::from_str("  Disk access        : ");
    if access { s.append("\u{25CF}") } else { s.append(" ") }
    lines.push(s);
    let mut s = String::from_str("  Drive A            : ");
    push_disc_name(&mut s, f.drive_a.disk_loaded, &f.drive_a.current_filename);
    lines.push(s);
    let mut s = String::from_str("  Drive B            : ");
    if f.drive_b_enabled {
        push_disc_name(&mut s, f.drive_b.disk_loaded, &f.drive_b.current_filename);
    } else {
        s.append("disabled (config.toml)");
    }
    lines.push(s);
    let mut s = String::from_str("  Tape               : ");
    match &bus.tape.current_filename {
        Some(n) => s.append(n.as_str()),
        None => s.append("None"),
    }
    if bus.tape.motor_on {
        s.append(" (motor on)");
    }
    lines.push(s);
    assert(texts(lines@) =~= drive_lines_text(*bus));
    lines
}

/// `names` joined by `sep`.
pub open spec fn joined(names: Seq<&'static str>, sep: Seq<char>) -> Seq<char>
    decreases names.len(),
{
    if names.len() == 0 {
        Seq::empty()
    } else if names.len() == 1 {
        names[0]@
    } else {
        joined(names.drop_last(), sep) + sep + names.last()@
    }
}

/// The line of keyboard row `line`, read `val`.
pub open spec fn keyboard_line_text(line: int, val: u8) -> Seq<char> {
    "  Line "@ + decimal(line as nat) + ": "@ + binary8(val) + " ("@ + hex_byte(val) + ")"@
        + if val != 0xFF { "  -> Pressed: "@ + joined(pressed_names(line as usize, val, 8), ", "@) } else { Seq::empty() }
}

/// The lines of the keyboard matrix section (row by row, a bit at 0 for a
/// key down).
pub open spec fn keyboard_lines_text(bus: CpcBus) -> Seq<Seq<char>> {
    seq![
        Seq::empty(),
        "[Keyboard Matrix (Negative Logic: 0 = Pressed, 1 = Released)]"@,
        "  Selected Keyboard Line: "@ + decimal(bus.psg.selected_keyboard_line as nat),
    ] + Seq::new(10, |i: int| keyboard_line_text(i, bus.psg.keyboard_matrix[i]))
}

/// The line of keyboard row `line`.
fn keyboard_line(line: usize, val: u8) -> (s: String)
    requires
        line < 10,
    ensures
        s@ == keyboard_line_text(line as int, val),
{
    let mut s = String::from_str("  Line ");
    push_decimal(&mut s, line as u64);
    s.append(": ");
    push_binary8(&mut s, val);
    s.append(" (");
    push_hex_byte(&mut s, val);
    s.append(")");
    if val != 0xFF {
        s.append("  -> Pressed: ");
        let names = pressed_key_names(line, val);
        let ghost head = s@;
        let mut k: usize = 0;
        while k < names.len()
            invariant
                k <= names@.len(),
                names@ == pressed_names(line, val, 8),
                s@ == head + joined(names@.take(k as int), ", "@),
            decreases names@.len() - k,
        {
            if k > 0 {
                s.append(", ");
            }
            s.append(names[k]);
            proof {
                let t = names@.take(k + 1);
                assert(t.drop_last() =~= names@.take(k as int));
                assert(t.last() == names@[k as int]);
            }
            k += 1;
        }
        assert(names@.take(names@.len() as int) =~= names@);
    }
    s
}

/// The lines of the keyboard matrix section.
pub fn keyboard_lines(bus: &CpcBus) -> (lines: Vec<String>)
    ensures
        texts(lines@) == keyboard_lines_text(*bus),
{
    let psg = &bus.psg;
    let mut lines: Vec<String> = Vec::new();
    lines.push(String::new());
    lines.push(String::from_str("[Keyboard Matrix (Negative Logic: 0 = Pressed, 1 = Released)]"));
    let mut s = String::from_str("  Selected Keyboard Line: ");
    push_decimal(&mut s, psg.selected_keyboard_line as u64);
    lines.push(s);
    let ghost head: Seq<Seq<char>> = seq![
        Seq::empty(),
        "[Keyboard Matrix (Negative Logic: 0 = Pressed, 1 = Released)]"@,
        "  Selected Keyboard Line: "@ + decimal(bus.psg.selected_keyboard_line as nat),
    ];
    let ghost rows = Seq::new(10, |i: int| keyboard_line_text(i, bus.psg.keyboard_matrix[i]));
    assert(keyboard_lines_text(*bus) == head + rows);
    let mut line: usize = 0;
    while line < 10
        invariant
            line <= 10,
            *psg == bus.psg,
            lines@.len() == 3 + line,
            keyboard_lines_text(*bus) == head + rows,
            head.len() == 3,
            rows.len() == 10,
            forall|k: int| 0 <= k < 10 ==> #[trigger] rows[k] == keyboard_line_text(k, bus.psg.keyboard_matrix[k]),
            forall|i: int| 0 <= i < 3 ==> lines@[i]@ == #[trigger] head[i],
            forall|k: int| 0 <= k < line ==> lines@[3 + k]@ == #[trigger] rows[k],
        decreases 10 - line,
    {
        let v = psg.keyboard_matrix[line];
        let l = keyboard_line(line, v);
        let ghost before = lines@;
        lines.push(l);
        proof {
            assert(rows[line as int] == keyboard_line_text(line as int, bus.psg.keyboard_matrix[line as int]));
            assert(v == bus.psg.keyboard_matrix[line as int]);
            assert(lines@[3 + line as int] == l);
            assert forall|k: int| 0 <= k < line + 1 implies lines@[3 + k]@ == #[trigger] rows[k] by {
                if k < line {
                    assert(lines@[3 + k] == before[3 + k]);
                }
            }
            assert forall|i: int| 0 <= i < 3 implies lines@[i]@ == #[trigger] head[i] by {
                assert(lines@[i] == before[i]);
            }
        }
        line += 1;
    }
    assert(texts(lines@) =~= keyboard_lines_text(*bus)) by {
        assert forall|i: int| 0 <= i < 13 implies texts(lines@)[i] == (head + rows)[i] by {
            if i >= 3 {
                assert(lines@[3 + (i - 3)]@ == rows[i - 3]);
            } else {
                assert(lines@[i]@ == head[i]);
            }
        }
    }
    lines
}

} // verus!
