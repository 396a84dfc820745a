use bytebox::machine::Machine;
use bytebox::status::{crtc_lines, drive_lines, frame_lines, ga_lines, keyboard_lines, ppi_lines, psg_lines};

#[test]
fn a_fresh_machine_reports_its_power_on_state() {
    let m = Machine::new(0, false);
    let ga = ga_lines(&m.bus);
    assert_eq!(ga[0], "=== CPC HARDWARE STATUS ===");
    assert_eq!(ga[3], "  Video Mode         : 1");
    assert_eq!(ga[5], "  HSYNC Counter      : 0/52");
    assert_eq!(ga[6], "  Interrupt Requested: false");
    assert!(ga[11].starts_with("  Palette (HW index) : Inks[0]=13 Inks[1]=13 "));
    assert!(ga[11].ends_with("Inks[15]=13 Border:13 "));
    let crtc = crtc_lines(&m.bus);
    assert_eq!(crtc[3], "  Scanline           : 0/312 (char row 0, raster 0)");
    assert_eq!(crtc[5], "  Registers          : R0=63  R1=40  R2=46  R3=142 R4=38  R5=0   R6=25  R7=30  R8=0   ");
    let ppi = ppi_lines(&m.bus);
    assert_eq!(ppi[3], "  Port B (System)    : 0x1E (VSYNC: false)");
    assert_eq!(ppi[5], "  Control Register   : 0x92");
    let frame = frame_lines(&m);
    assert_eq!(frame[0], "  Frame (registers)  : 312 scanlines");
    let drives = drive_lines(&m.bus);
    assert_eq!(drives[4], "  Drive A            : None");
    assert_eq!(drives[5], "  Drive B            : disabled (config.toml)");
    assert_eq!(drives[6], "  Tape               : None");
}

#[test]
fn the_psg_channels_show_period_frequency_and_volume() {
    let mut m = Machine::new(0, false);
    m.bus.psg.registers[0] = 0xF4;
    m.bus.psg.registers[1] = 0x01;
    m.bus.psg.registers[7] = 0x3E;
    m.bus.psg.registers[8] = 0x0C;
    m.bus.psg.registers[9] = 0x10;
    let psg = psg_lines(&m.bus, 7);
    assert_eq!(psg[5], "  Channel A          : period 500  (  125 Hz)  tone on   noise off  volume 12");
    assert_eq!(psg[6], "  Channel B          : period 0    (    0 Hz)  tone off  noise off  volume env (7)");
}

#[test]
fn the_keyboard_rows_name_the_keys_down() {
    let mut m = Machine::new(0, false);
    m.bus.psg.keyboard_matrix[0] = 0xFE;
    let kb = keyboard_lines(&m.bus);
    assert_eq!(kb.len(), 13);
    assert!(kb[3].starts_with("  Line 0: 11111110 (0xFE)  -> Pressed: "), "{}", kb[3]);
    assert_eq!(kb[4], "  Line 1: 11111111 (0xFF)");
}
