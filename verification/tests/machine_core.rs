use bytebox::machine::{
    channel_summary, key_name, pressed_key_names, AddressSource, Machine, StepOutcome,
};

#[test]
fn a_breakpoint_stops_once_then_lets_the_instruction_run() {
    let mut m = Machine::new(0, false);
    m.add_breakpoint(0x1234);
    assert!(!m.check_breakpoint(0x1000));
    assert!(m.check_breakpoint(0x1234));
    assert!(!m.is_running());
    assert!(!m.check_breakpoint(0x1234), "reprise : l'instruction s'execute");
    assert!(m.remove_breakpoint(0x1234));
    assert!(!m.remove_breakpoint(0x1234));
}

#[test]
fn a_watchpoint_hit_stops_the_machine() {
    let mut m = Machine::new(0, false);
    m.add_watchpoint(0x8000);
    m.bus.write_byte(0x8000, 0x42);
    assert_eq!(m.finish_instruction(4, false), StepOutcome::WatchpointHit(0x8000));
    assert!(!m.is_running());
    assert_eq!(m.bus.watchpoint_hit, None);
    assert!(m.remove_watchpoint(0x8000));
}

#[test]
fn an_instruction_lasts_whole_microseconds_and_sweeps_scanlines() {
    let mut m = Machine::new(0, false);
    assert_eq!(m.finish_instruction(5, false), StepOutcome::Ran { elapsed: 8, interrupts: 0 });
    assert_eq!(m.finish_instruction(0, false), StepOutcome::Ran { elapsed: 4, interrupts: 0 });
    assert_eq!(m.total_ticks, 12);
    assert_eq!(m.hsync_accumulator, 12);
    for _ in 0..61 {
        m.finish_instruction(4, false);
    }
    assert_eq!(m.hsync_accumulator, 0, "256 cycles : une scanline complete");
    assert_eq!(m.bus.crtc.scanline, 1);
    assert_eq!(m.current_line, 1);
}

#[test]
fn a_frame_raises_six_interrupts_and_is_measured() {
    let mut m = Machine::new(0, false);
    let mut interrupts = 0;
    // Deux trames de 312 lignes, instruction de 256 cycles chacune.
    for _ in 0..(2 * 312) {
        if let StepOutcome::Ran { interrupts: n, .. } = m.finish_instruction(256, false) {
            interrupts += n;
        }
    }
    assert!(m.frame_ready);
    assert_eq!(m.measured_frame_lines, 312);
    assert!(interrupts >= 11 && interrupts <= 13, "{interrupts} interruptions pour deux trames");
}

#[test]
fn memory_search_and_sources() {
    let mut m = Machine::new(0, false);
    m.bus.write_byte(0x4000, 0xA5);
    m.bus.write_byte(0x8123, 0xA5);
    let found = m.search_memory(0xA5);
    assert_eq!(found, vec![0x4000, 0x8123]);
    assert_eq!(m.address_source(0x0000), AddressSource::RomLow);
    assert_eq!(m.address_source(0x4000), AddressSource::Ram { bank: 1 });
    // Aucune ROM haute chargee : la RAM reste visible en haut.
    assert_eq!(m.address_source(0xC000), AddressSource::Ram { bank: 3 });
    let row = m.ram_row(0x4000);
    assert_eq!(row[0], 0xA5);
}

#[test]
fn unimplemented_instructions_are_reported_ten_times_only() {
    let mut m = Machine::new(0, false);
    let reported = (0..15).filter(|_| m.note_unimplemented()).count();
    assert_eq!(reported, 10);
}

#[test]
fn key_labels_follow_the_matrix() {
    assert_eq!(key_name(0, 0), "Up");
    assert_eq!(key_name(5, 7), "Space");
    assert_eq!(key_name(9, 7), "Del");
    assert_eq!(key_name(10, 0), "Unknown");
    assert_eq!(pressed_key_names(2, 0b1101_1011), vec!["Enter", "Shift"]);
    assert!(pressed_key_names(4, 0xFF).is_empty());
}

#[test]
fn a_channel_is_summed_up_from_its_registers() {
    let mut regs = [0u8; 16];
    regs[0] = 0x34;
    regs[1] = 0xF2; // les 4 bits hauts sont ignores
    regs[7] = 0b0011_1110; // ton A actif, bruit A coupe
    regs[8] = 0x1C;
    let a = channel_summary(&regs, 0);
    assert_eq!(a.period, 0x234);
    assert_eq!(a.frequency, 1_000_000 / (16 * 0x234));
    assert!(a.tone_on);
    assert!(!a.noise_on);
    assert!(a.envelope);
    assert_eq!(a.volume, 0x0C);
    let b = channel_summary(&regs, 1);
    assert_eq!(b.period, 0);
    assert_eq!(b.frequency, 0);
    assert!(!b.tone_on);
}
