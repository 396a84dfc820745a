use bytebox::engine::crtc::Crtc;
use bytebox::engine::gate_array::GateArray;

#[test]
fn crtc_type_detection_reports_type_0() {
    let mut crtc = Crtc::new();
    const PROBE: u8 = 0b0110100;
    crtc.select_register(12);
    crtc.write_data(PROBE);
    let status = crtc.read_status();
    let data = crtc.read_data();
    assert_ne!(data, status, "types 3/4 : les deux ports renvoient la meme chose");
    assert_eq!(data, PROBE, "type 0 : R12 se relit tel qu'ecrit");
}

#[test]
fn write_only_registers_read_back_as_zero() {
    let mut crtc = Crtc::new();
    for reg in [0u8, 1, 4, 6, 7, 9] {
        crtc.select_register(reg);
        crtc.write_data(0x2A);
        assert_eq!(crtc.read_data(), 0, "R{reg} ne devrait pas se relire");
    }
}

#[test]
fn register_select_is_truncated_to_five_bits() {
    let mut crtc = Crtc::new();
    crtc.select_register(12);
    crtc.select_register(0xFF);
    assert_eq!(crtc.selected_register, 0x1F);
    crtc.write_data(0x2A);
    assert_eq!(crtc.registers[12], 0x30);
}

#[test]
fn default_frame_is_312_scanlines() {
    let mut crtc = Crtc::new();
    assert_eq!(crtc.frame_scanlines(), 312);
    for _ in 0..312 {
        crtc.step_scanline();
    }
    assert_eq!(crtc.scanline, 0);
    assert_eq!(crtc.char_row, 0);
    assert_eq!(crtc.raster, 0);
}

#[test]
fn vsync_starts_once_per_frame_at_r7() {
    let mut crtc = Crtc::new();
    let mut starts = Vec::new();
    for _ in 0..312 {
        if crtc.step_scanline() {
            starts.push(crtc.scanline);
        }
    }
    assert_eq!(starts, vec![240]);
}

#[test]
fn a_mid_frame_reprogramming_makes_the_announced_length_wrong() {
    let mut crtc = Crtc::new();
    assert_eq!(crtc.frame_scanlines(), 312);
    let mut elapsed = 0;
    for _ in 0..200 {
        crtc.step_scanline();
        elapsed += 1;
    }
    crtc.registers[4] = 6;
    crtc.registers[9] = 7;
    assert_eq!(crtc.frame_scanlines(), 56, "les registres annoncent desormais une trame six fois trop courte");
    while crtc.scanline != 0 {
        crtc.step_scanline();
        elapsed += 1;
    }
    assert!(elapsed > crtc.frame_scanlines(), "trame reelle de {elapsed} lignes, annoncee {}", crtc.frame_scanlines());
}

#[test]
fn vertical_adjust_extends_the_frame() {
    let mut crtc = Crtc::new();
    crtc.registers[5] = 6;
    assert_eq!(crtc.frame_scanlines(), 318);
    for _ in 0..318 {
        crtc.step_scanline();
    }
    assert_eq!(crtc.scanline, 0);
    assert_eq!(crtc.char_row, 0);
}

#[test]
fn the_vsync_scanline_and_line_length_follow_the_registers() {
    let crtc = Crtc::new();
    assert_eq!(crtc.vsync_scanline(), 240);
    assert_eq!(crtc.line_chars(), 64);
}

#[test]
fn an_interrupt_lands_during_vsync_on_every_frame() {
    let mut crtc = Crtc::new();
    let mut ga = GateArray::new();

    for frame in 0..4 {
        let mut interrupts_during_vsync = 0;
        for _ in 0..crtc.frame_scanlines() {
            let vsync_start = crtc.step_scanline();
            if ga.step_hsync(vsync_start) {
                ga.acknowledge_interrupt();
                if crtc.vsync {
                    interrupts_during_vsync += 1;
                }
            }
        }
        assert!(interrupts_during_vsync > 0, "frame {frame}: no interrupt during VSYNC");
    }
}

#[test]
fn the_scanline_counter_counts_the_lines_of_the_frame() {
    let mut crtc = Crtc::new();
    let f = crtc.frame_scanlines();
    for k in 1..f {
        crtc.step_scanline();
        assert_eq!(crtc.scanline, k);
    }
    crtc.step_scanline();
    assert_eq!((crtc.scanline, crtc.char_row, crtc.raster), (0, 0, 0));
}
