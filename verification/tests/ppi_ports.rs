use bytebox::engine::ppi::Ppi;
use bytebox::psg::Psg;

const PORT_A: u16 = 0xF400;
const PORT_C: u16 = 0xF600;

fn psg_write(ppi: &mut Ppi, psg: &mut Psg, reg: u8, value: u8) {
    ppi.write_register(PORT_A, reg, psg);
    ppi.write_register(PORT_C, 0xC0, psg);
    ppi.write_register(PORT_C, 0x00, psg);
    ppi.write_register(PORT_A, value, psg);
    ppi.write_register(PORT_C, 0x80, psg);
    ppi.write_register(PORT_C, 0x00, psg);
}

#[test]
fn the_firmware_write_sequence_reaches_the_sound_registers() {
    let mut ppi = Ppi::new();
    let mut psg = Psg::new();
    psg_write(&mut ppi, &mut psg, 0, 0x34);
    psg_write(&mut ppi, &mut psg, 1, 0x02);
    psg_write(&mut ppi, &mut psg, 7, 0x3E);
    psg_write(&mut ppi, &mut psg, 8, 0x0F);
    assert_eq!(psg.registers[0], 0x34);
    assert_eq!(psg.registers[1], 0x02);
    assert_eq!(psg.registers[7], 0x3E);
    assert_eq!(psg.registers[8], 0x0F);
}

#[test]
fn selecting_a_keyboard_line_does_not_disturb_the_psg_registers() {
    let mut ppi = Ppi::new();
    let mut psg = Psg::new();
    psg_write(&mut ppi, &mut psg, 8, 0x0F);
    ppi.write_register(PORT_C, 0x45, &mut psg);
    assert_eq!(psg.selected_keyboard_line, 5);
    assert_eq!(psg.registers[8], 0x0F, "le registre ne doit pas bouger");
}

#[test]
fn setting_the_mode_clears_the_output_registers() {
    let mut ppi = Ppi::new();
    let mut psg = Psg::new();
    ppi.write_register(PORT_A, 0xFF, &mut psg);
    ppi.write_register(PORT_C, 0x0F, &mut psg);
    assert_eq!(psg.selected_keyboard_line, 0x0F);
    ppi.write_register(0xF700, 0x82, &mut psg);
    assert_eq!(ppi.port_c, 0, "le port C doit repartir de zero");
    assert_eq!(ppi.port_a, 0, "le port A aussi");
    assert_eq!(psg.selected_keyboard_line, 0);
    assert_eq!(ppi.control_register, 0x82, "le mot de controle est retenu");
}

#[test]
fn a_scan_that_ors_the_line_number_still_selects_the_right_line() {
    let mut ppi = Ppi::new();
    let mut psg = Psg::new();
    psg.keyboard_matrix[2] = 0b1111_1011;
    for line in 0..10u8 {
        ppi.write_register(0xF700, 0x82, &mut psg);
        ppi.write_register(PORT_A, 14, &mut psg);
        let port_c = ppi.read_register(PORT_C, &psg, false);
        ppi.write_register(PORT_C, port_c | 0xC0 | line, &mut psg);
        ppi.write_register(PORT_C, (port_c | 0xC0 | line) & 0x3F, &mut psg);
        ppi.write_register(0xF700, 0x92, &mut psg);
        ppi.write_register(PORT_C, line | 0x40, &mut psg);
        let value = ppi.read_register(PORT_A, &psg, false);
        assert_eq!(psg.selected_keyboard_line, line, "ligne {line} demandee, ligne {} selectionnee", psg.selected_keyboard_line);
        let expected = if line == 2 { 0b1111_1011 } else { 0xFF };
        assert_eq!(value, expected, "valeur lue pour la ligne {line}");
    }
}

#[test]
fn the_bit_set_reset_mode_also_updates_the_keyboard_line() {
    let mut ppi = Ppi::new();
    let mut psg = Psg::new();
    ppi.write_register(0xF700, 0x01, &mut psg);
    ppi.write_register(0xF700, 0x03, &mut psg);
    assert_eq!(psg.selected_keyboard_line, 3);
}

#[test]
fn port_b_carries_vsync_joystick_and_the_live_tape_level() {
    let mut ppi = Ppi::new();
    let psg = Psg::new();
    ppi.set_system_port_b(true, true);
    assert_eq!(ppi.read_register(0xF500, &psg, false), 0x1F);
    assert_eq!(ppi.read_register(0xF500, &psg, true), 0x9F);
    ppi.set_system_port_b(false, false);
    assert_eq!(ppi.read_register(0xF500, &psg, false), 0x1C);
    assert_eq!(ppi.read_register(0xF700, &psg, false), 0xFF);
}

#[test]
fn the_first_model_sets_vsync_on_bit_zero() {
    let mut ppi = bytebox::ppi::Ppi::new();
    let mut psg = Psg::new();
    ppi.set_vsync(true);
    assert_eq!(ppi.read_register(0xF500, &psg), 0x1F);
    ppi.set_vsync(false);
    assert_eq!(ppi.read_register(0xF500, &psg), 0x1E);
    ppi.write_register(0xF700, 0x82, &mut psg);
    assert_eq!(ppi.control_register, 0x82);
}
