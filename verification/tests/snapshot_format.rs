use bytebox::machine::Machine;
use bytebox::snapshot::{
    capture, decode, encode_header, restore, save_bytes, CpuState, RegisterBank, SnapshotError,
    HEADER_LEN, OFF_AF, OFF_BC, OFF_GA_ROM_CONFIG, OFF_IX, OFF_PC, OFF_PPI_B, OFF_RAM_SIZE, OFF_SP,
    OFF_VERSION,
};

fn bank() -> RegisterBank {
    RegisterBank { a: 0, f: 0, b: 0, c: 0, d: 0, e: 0, h: 0, l: 0 }
}

fn cpu() -> CpuState {
    CpuState {
        main: bank(),
        alt: bank(),
        r: 0,
        i: 0,
        ixh: 0,
        ixl: 0,
        iyh: 0,
        iyl: 0,
        sp: 0,
        pc: 0,
        im: 0,
        iff1: false,
        iff2: false,
    }
}

#[test]
fn snapshot_the_header_carries_the_signature_and_the_cpu_state() {
    let machine = Machine::new(0, false);
    let mut c = cpu();
    c.pc = 0x1234;
    c.sp = 0xBEEF;
    c.main.a = 0x5A;
    c.main.b = 0x11;
    c.main.c = 0x22;
    c.ixh = 0xAB;
    c.ixl = 0xCD;

    let h = encode_header(&capture(&c, &machine.bus, 128));

    assert_eq!(&h[..8], b"MV - SNA");
    assert_eq!(h[OFF_VERSION], 1);
    assert_eq!([h[OFF_PC], h[OFF_PC + 1]], [0x34, 0x12]);
    assert_eq!([h[OFF_SP], h[OFF_SP + 1]], [0xEF, 0xBE]);
    assert_eq!(h[OFF_AF + 1], 0x5A, "A est l'octet haut de AF");
    assert_eq!(h[OFF_BC], 0x22, "C est l'octet bas de BC");
    assert_eq!(h[OFF_BC + 1], 0x11, "B est l'octet haut de BC");
    assert_eq!([h[OFF_IX], h[OFF_IX + 1]], [0xCD, 0xAB]);
    assert_eq!([h[OFF_RAM_SIZE], h[OFF_RAM_SIZE + 1]], [128, 0]);
}

#[test]
fn snapshot_the_rom_configuration_bits_are_inverted_relative_to_our_flags() {
    let mut machine = Machine::new(0, false);

    machine.bus.memory.rom_low_enabled = true;
    machine.bus.memory.rom_high_enabled = true;
    let h = encode_header(&capture(&cpu(), &machine.bus, 128));
    assert_eq!(h[OFF_GA_ROM_CONFIG] & 0x0C, 0x00, "deux ROM actives : aucun bit de desactivation");

    machine.bus.memory.rom_low_enabled = false;
    machine.bus.memory.rom_high_enabled = false;
    let h = encode_header(&capture(&cpu(), &machine.bus, 128));
    assert_eq!(h[OFF_GA_ROM_CONFIG] & 0x0C, 0x0C, "deux ROM inactives : les deux bits poses");
}

#[test]
fn snapshot_a_saved_file_has_the_expected_size() {
    let machine = Machine::new(0, false);
    let bytes = save_bytes(&cpu(), &machine.bus).expect("ecriture de l'instantane");
    assert_eq!(bytes.len(), HEADER_LEN + 128 * 1024);
}

#[test]
fn a_saved_snapshot_reloads_to_the_same_state() {
    let mut machine = Machine::new(0, false);
    let mut c = cpu();
    c.pc = 0x1234;
    c.sp = 0xBEEF;
    c.main.a = 0x5A;
    c.ixh = 0xAB;
    c.ixl = 0xCD;
    c.alt.b = 0x77;
    c.im = 2;
    c.iff1 = true;
    c.iff2 = false;
    machine.bus.memory.ram[0x1000] = 0xA5;
    machine.bus.gate_array.palette[3] = 0x1A;
    machine.bus.gate_array.video_mode = 2;
    machine.bus.crtc.registers[6] = 24;
    machine.bus.psg.registers[7] = 0x38;

    let bytes = save_bytes(&c, &machine.bus).expect("ecriture de l'instantane");

    let mut reloaded = Machine::new(0, false);
    let h = decode(&bytes).expect("lecture de l'instantane");
    restore(&mut reloaded, &h, &bytes).expect("restauration");

    assert_eq!(h.cpu.pc, 0x1234);
    assert_eq!(h.cpu.sp, 0xBEEF);
    assert_eq!(h.cpu.main.a, 0x5A);
    assert_eq!((h.cpu.ixh, h.cpu.ixl), (0xAB, 0xCD));
    assert_eq!(h.cpu.alt.b, 0x77);
    assert_eq!(h.cpu.im, 2);
    assert!(h.cpu.iff1);
    assert!(!h.cpu.iff2);
    assert_eq!(reloaded.bus.memory.ram[0x1000], 0xA5);
    assert_eq!(reloaded.bus.gate_array.palette[3], 0x1A);
    assert_eq!(reloaded.bus.gate_array.video_mode, 2);
    assert_eq!(reloaded.bus.crtc.registers[6], 24);
    assert_eq!(reloaded.bus.psg.registers[7], 0x38);
}

#[test]
fn loading_never_lets_a_snapshot_rewire_the_machine_identity() {
    let mut header = vec![0u8; HEADER_LEN];
    header[..8].copy_from_slice(b"MV - SNA");
    header[OFF_VERSION] = 1;
    header[OFF_RAM_SIZE..OFF_RAM_SIZE + 2].copy_from_slice(&128u16.to_le_bytes());
    header[OFF_PPI_B] = 0x00;
    let mut file = header;
    file.extend(std::iter::repeat_n(0u8, 128 * 1024));

    let mut machine = Machine::new(0, false);
    let expected = machine.bus.ppi.port_b_input;
    let h = decode(&file).expect("lecture de l'instantane");
    restore(&mut machine, &h, &file).expect("restauration");

    assert_eq!(
        (machine.bus.ppi.port_b_input >> 1) & 0x07,
        (expected >> 1) & 0x07,
        "les straps constructeur ont ete ecrases par l'instantane"
    );
}

#[test]
fn a_file_without_the_signature_is_refused() {
    let data = vec![0u8; HEADER_LEN + 1024];
    assert!(matches!(decode(&data), Err(SnapshotError::NotASnapshot)));
    assert!(matches!(decode(&[0u8; 10]), Err(SnapshotError::NotASnapshot)));
}

#[test]
fn a_chunked_v3_snapshot_is_refused_rather_than_loaded_empty() {
    let mut header = [0u8; HEADER_LEN];
    header[..8].copy_from_slice(b"MV - SNA");
    header[OFF_VERSION] = 3;
    let err = decode(&header).expect_err("un v3 chunke doit etre refuse");
    assert_eq!(err, SnapshotError::ChunkedMemory);
    assert!(err.message().contains("MEM0-MEM8"), "message peu explicite : {}", err.message());
}

#[test]
fn a_truncated_snapshot_is_refused() {
    let machine = Machine::new(0, false);
    let bytes = save_bytes(&cpu(), &machine.bus).unwrap();
    let err = decode(&bytes[..bytes.len() - 1]).unwrap_err();
    assert_eq!(err, SnapshotError::Truncated { ram_kb: 128, present: 131071 });
    assert_eq!(err.message(), "truncated, header announces 128 KB of RAM but only 131071 bytes follow it");
    assert_eq!(
        err.report("x.sna"),
        "x.sna: truncated, header announces 128 KB of RAM but only 131071 bytes follow it"
    );
}

#[test]
fn the_refusals_name_the_file_and_the_sizes() {
    assert_eq!(SnapshotError::NotASnapshot.report("a.sna"), "a.sna is not a .SNA snapshot");
    let small = SnapshotError::RamTooSmall { bytes: 65536 };
    assert_eq!(small.report("a.sna"), "RAM too small for a snapshot (65536 bytes)");
}

#[test]
fn a_snapshot_larger_than_the_machine_is_refused() {
    let mut header = vec![0u8; HEADER_LEN];
    header[..8].copy_from_slice(b"MV - SNA");
    header[OFF_RAM_SIZE..OFF_RAM_SIZE + 2].copy_from_slice(&256u16.to_le_bytes());
    header.extend(std::iter::repeat_n(0u8, 256 * 1024));
    let h = decode(&header).unwrap();
    assert_eq!(h.ram_kb, 256);
    let mut machine = Machine::new(0, false);
    let err = restore(&mut machine, &h, &header).unwrap_err();
    assert!(matches!(err, SnapshotError::RamTooLarge { ram_kb: 256, .. }));
    assert_eq!(
        err.message(),
        format!("snapshot holds 256 KB of RAM, more than this machine has ({} KB)", machine.bus.memory.ram.len() / 1024)
    );
}
