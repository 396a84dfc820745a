use bytebox::engine::trace::{is_branch, TraceMode, Tracer, CAPACITY};

#[test]
fn branch_detection_covers_every_sequence_break() {
    for opcode in [
        0xC3, 0xE9, 0xCD, 0xC9, 0x18, 0x10, 0xCA, 0xC4, 0xD8, 0x28, 0xC7, 0xCF, 0xD7, 0xDF, 0xE7, 0xEF,
        0xF7, 0xFF,
    ] {
        assert!(is_branch(&[opcode, 0, 0, 0]), "opcode {opcode:#04X}");
    }
    assert!(is_branch(&[0xED, 0x4D, 0, 0]));
    assert!(is_branch(&[0xED, 0x45, 0, 0]));
    assert!(is_branch(&[0xDD, 0xE9, 0, 0]));
    for opcode in [0x00, 0x3E, 0x76, 0x77, 0xAF, 0xEB, 0x06, 0x21] {
        assert!(!is_branch(&[opcode, 0, 0, 0]), "opcode {opcode:#04X}");
    }
    assert!(!is_branch(&[0xED, 0xB0, 0, 0]));
    assert!(!is_branch(&[0xDD, 0x21, 0, 0]));
}

#[test]
fn branches_mode_keeps_only_the_sequence_breaks() {
    let mut tracer = Tracer::new();
    tracer.start(TraceMode::Branches);
    tracer.record(0x1000, 0xC000, [0x00, 0, 0, 0]);
    tracer.record(0x1001, 0xC000, [0xCD, 0x34, 0x12, 0]);
    tracer.record(0x1234, 0xC000, [0xAF, 0, 0, 0]);
    tracer.record(0x1235, 0xC000, [0xC9, 0, 0, 0]);
    assert_eq!(tracer.len(), 2);
    let last = tracer.last_entries(10);
    assert_eq!(last[0].opcode[0], 0xCD);
    assert_eq!(last[1].opcode[0], 0xC9);
}

#[test]
fn all_mode_keeps_everything_and_start_clears_the_buffer() {
    let mut tracer = Tracer::new();
    tracer.start(TraceMode::All);
    tracer.record(0x1000, 0xC000, [0x00, 0, 0, 0]);
    tracer.record(0x1001, 0xC000, [0x00, 0, 0, 0]);
    assert_eq!(tracer.len(), 2);
    tracer.start(TraceMode::All);
    assert_eq!(tracer.len(), 0);
}

#[test]
fn recording_is_off_by_default() {
    let tracer = Tracer::new();
    assert!(!tracer.is_recording());
    assert!(tracer.status().contains("off"));
}

#[test]
fn a_full_buffer_forgets_its_oldest_entry() {
    let mut tracer = Tracer::new();
    tracer.start(TraceMode::All);
    for i in 0..CAPACITY + 1 {
        tracer.record(i as u16, 0, [0, 0, 0, 0]);
    }
    assert_eq!(tracer.len(), CAPACITY);
    assert_eq!(tracer.last_entries(CAPACITY)[0].pc, 1);
    tracer.stop();
    assert!(!tracer.is_recording());
    assert!(!tracer.is_empty());
}

#[test]
fn the_status_line_names_the_mode_and_counts_the_entries() {
    let mut t = Tracer::new();
    assert_eq!(t.status(), "Trace: off - 0 instruction(s) en tampon (capacite 65536)");
    t.start(TraceMode::All);
    t.record(0x1234, 0xC000, [0, 0, 0, 0]);
    t.record(0x1235, 0xC000, [0, 0, 0, 0]);
    assert_eq!(t.status(), "Trace: on (toutes les instructions) - 2 instruction(s) en tampon (capacite 65536)");
}
