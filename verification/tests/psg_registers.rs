use bytebox::psg::Psg;

fn write(psg: &mut Psg, reg: u8, value: u8) {
    psg.selected_register = reg;
    psg.write_current_register(value);
}

#[test]
fn psg_register_writes_are_masked_to_the_hardware_width() {
    let mut psg = Psg::new();
    for reg in 0..16u8 {
        write(&mut psg, reg, 0xFF);
    }
    assert_eq!(psg.registers[1] & 0xF0, 0, "R1 ne garde que 4 bits");
    assert_eq!(psg.registers[3] & 0xF0, 0, "R3 ne garde que 4 bits");
    assert_eq!(psg.registers[5] & 0xF0, 0, "R5 ne garde que 4 bits");
    assert_eq!(psg.registers[6], 0x1F, "R6 ne garde que 5 bits");
    assert_eq!(psg.registers[8], 0x1F, "R8 ne garde que 5 bits");
    assert_eq!(psg.registers[13], 0x0F, "R13 ne garde que 4 bits");
    assert_eq!(psg.registers[0], 0xFF);
    assert_eq!(psg.registers[7], 0xFF);
    assert_eq!(psg.registers[11], 0xFF);
}

#[test]
fn writing_r13_asks_for_an_envelope_restart_even_with_the_same_value() {
    let mut psg = Psg::new();
    write(&mut psg, 13, 0x0A);
    assert!(psg.take_envelope_restart());
    assert!(!psg.take_envelope_restart());
    write(&mut psg, 13, 0x0A);
    assert!(psg.take_envelope_restart(), "la meme valeur redemarre aussi l'enveloppe");
    write(&mut psg, 8, 0x0A);
    assert!(!psg.take_envelope_restart(), "un autre registre ne touche pas a l'enveloppe");
}

#[test]
fn psg_register_14_still_reads_the_selected_keyboard_line() {
    let mut psg = Psg::new();
    psg.keyboard_matrix[3] = 0b1111_0111;
    psg.selected_keyboard_line = 3;
    psg.selected_register = 14;
    assert_eq!(psg.read_current_register(), 0b1111_0111);
    psg.selected_keyboard_line = 12;
    assert_eq!(psg.read_current_register(), 0xFF);
}

#[test]
fn joystick_buttons_reach_row_nine() {
    let mut psg = Psg::new();
    psg.set_controller_button(4, true);
    assert_eq!(psg.keyboard_matrix[9], 0xFF & !(1 << 4));
    assert_eq!(psg.controller_state[4], 1);
    psg.set_controller_button(4, false);
    assert_eq!(psg.keyboard_matrix[9], 0xFF);
    psg.set_controller_button(9, true);
    assert_eq!(psg.keyboard_matrix[9], 0xFF);
}
