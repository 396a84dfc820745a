use bytebox::bus::fdc_selected;

#[test]
fn only_the_disc_interface_ports_reach_the_fdc() {
    for port in [0xFA7E, 0xFB7E, 0xFB7F] {
        assert!(fdc_selected(port), "{port:#06X} devrait atteindre le FDC");
    }
    for port in [
        0x79FF, 0x7BFF, 0x7F00, 0xBC00, 0xBD00, 0xBE00, 0xBF00, 0xDF00, 0xF400, 0xF500, 0xF600,
        0xF700,
    ] {
        assert!(!fdc_selected(port), "{port:#06X} ne devrait pas atteindre le FDC");
    }
}

use bytebox::bus::CpcBus;
use bytebox::engine::memory::Memory;

#[test]
fn writing_port_c_bit_4_turns_the_tape_motor_on() {
    let mut bus = CpcBus::new(Memory::new(0));
    assert!(!bus.tape.motor_on);

    // &F658, exactement la valeur observée en usage réel.
    bus.write_io(0xF600, 0x58);
    assert!(bus.tape.motor_on, "port C = 0x58 (bit 4 pose) doit activer le moteur cassette");

    bus.write_io(0xF600, 0x48); // bit 4 retire (garde bit 6, ligne clavier 8)
    assert!(!bus.tape.motor_on);
}

#[test]
fn io_reaches_the_ppi_and_reads_the_idle_keyboard_row() {
    let mut bus = CpcBus::new(Memory::new(0));
    bus.write_io(0xF640, 0x40);
    assert_eq!(bus.ppi.port_c, 0x40, "un OUT vers &F6xx doit atteindre le port C du PPI");
    bus.psg.selected_register = 14;
    assert_eq!(bus.read_io(0xF400), 0xFF, "un IN sur &F4xx doit rendre la ligne clavier au repos");
}

#[test]
fn the_gate_array_port_sets_pens_inks_mode_and_roms() {
    let mut bus = CpcBus::new(Memory::new(0));
    bus.write_io(0x7F00, 0x03); // stylo 3
    bus.write_io(0x7F00, 0x40 | 0x14); // encre 0x14
    assert_eq!(bus.gate_array.palette[3], 0x14);
    bus.write_io(0x7F00, 0x80 | 0x0C | 0x02); // mode 2, deux ROM coupees
    assert_eq!(bus.gate_array.video_mode, 2);
    assert!(!bus.memory.rom_low_enabled);
    assert!(!bus.memory.rom_high_enabled);
    bus.write_io(0x7F00, 0xC0 | 0x02); // MMU : configuration 2
    assert_eq!(bus.memory.ram_config, 2);
}

#[test]
fn the_crtc_ports_select_write_and_read_back() {
    let mut bus = CpcBus::new(Memory::new(0));
    bus.write_io(0xBC00, 12);
    bus.write_io(0xBD00, 0x30);
    assert_eq!(bus.crtc.registers[12], 0x30);
    assert_eq!(bus.read_io(0xBF00), 0x30, "R12 se relit sur &BFxx");
    bus.write_io(0xBC00, 1);
    assert_eq!(bus.read_io(0xBF00), 0, "R1 est en ecriture seule");
    assert_eq!(bus.read_io(0xBE00), 0, "le type 0 n'a pas de registre d'etat");
}

#[test]
fn the_upper_rom_port_selects_the_rom_and_the_fdc_port_drives_the_motor() {
    let mut bus = CpcBus::new(Memory::new(0));
    bus.write_io(0xDF00, 7);
    assert_eq!(bus.memory.selected_high_rom, 7);
    bus.write_io(0xFA7E, 1);
    assert!(bus.fdc.motor_on);
    bus.write_io(0xFA7E, 0);
    assert!(!bus.fdc.motor_on);
    assert_eq!(bus.read_io(0xFB7E), 0x80, "controleur libre : RQM seul");
    assert_eq!(bus.read_io(0x0000 | 0xFF00 & 0xDFFF), 0xFF);
}

#[test]
fn a_watched_write_is_recorded() {
    let mut bus = CpcBus::new(Memory::new(0));
    bus.watchpoints.insert(0x4000);
    bus.write_byte(0x3FFF, 1);
    assert_eq!(bus.watchpoint_hit, None);
    bus.write_byte(0x4000, 2);
    assert_eq!(bus.watchpoint_hit, Some(0x4000));
    assert_eq!(bus.read_byte(0x4000), 2);
    // &3FFF se lit dans la ROM basse (vide), &4000 en RAM.
    assert_eq!(bus.read_word(0x3FFF), 0x0200);
}
