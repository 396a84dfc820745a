use bytebox::gate_array::{GateArray, CPC_COLORS_RGB, HARDWARE_TO_PHYSICAL};

const REFERENCE_PALETTE: [(u8, usize); 27] = [
    (0x54, 0),
    (0x44, 1),
    (0x55, 2),
    (0x5C, 3),
    (0x58, 4),
    (0x5D, 5),
    (0x4C, 6),
    (0x45, 7),
    (0x4D, 8),
    (0x56, 9),
    (0x46, 10),
    (0x57, 11),
    (0x5E, 12),
    (0x40, 13),
    (0x5F, 14),
    (0x4E, 15),
    (0x47, 16),
    (0x4F, 17),
    (0x52, 18),
    (0x42, 19),
    (0x53, 20),
    (0x5A, 21),
    (0x59, 22),
    (0x5B, 23),
    (0x4A, 24),
    (0x43, 25),
    (0x4B, 26),
];

#[test]
fn hardware_palette_matches_the_reference_table() {
    for (hw_value, expected) in REFERENCE_PALETTE {
        let hw = (hw_value & 0x1F) as usize;
        assert_eq!(HARDWARE_TO_PHYSICAL[hw], expected, "valeur materielle &{hw_value:02X}");
    }
}

#[test]
fn physical_colors_are_the_27_distinct_rgb_combinations() {
    let mut seen = CPC_COLORS_RGB.to_vec();
    seen.sort_unstable();
    seen.dedup();
    assert_eq!(seen.len(), 27, "couleurs physiques dupliquees");
    for (r, g, b) in CPC_COLORS_RGB {
        for component in [r, g, b] {
            assert!(matches!(component, 0 | 128 | 255), "composante hors des trois niveaux du CPC dans {:?}", (r, g, b));
        }
    }
}

#[test]
fn border_set_to_black_renders_black() {
    let mut ga = GateArray::new();
    let mut rom_low = true;
    let mut rom_high = true;
    ga.write_register(0x10, &mut rom_low, &mut rom_high);
    ga.write_register(0x54, &mut rom_low, &mut rom_high);
    assert_eq!(ga.state().rgb(16), (0, 0, 0));
}

#[test]
fn state_snapshot_is_independent_from_later_changes() {
    let mut ga = GateArray::new();
    let mut rom_low = true;
    let mut rom_high = true;
    ga.write_register(0x00, &mut rom_low, &mut rom_high);
    ga.write_register(0x54, &mut rom_low, &mut rom_high);
    ga.write_register(0x8D, &mut rom_low, &mut rom_high);
    let captured = ga.state();
    ga.write_register(0x4B, &mut rom_low, &mut rom_high);
    ga.write_register(0x8C, &mut rom_low, &mut rom_high);
    assert_eq!(captured.video_mode, 1);
    assert_eq!(captured.rgb(0), (0, 0, 0));
    assert_eq!(ga.video_mode, 0);
    assert_eq!(ga.state().rgb(0), (255, 255, 255));
}

fn interrupt_lines(ga: &mut GateArray, vsync_line: u32, frame_lines: u32) -> Vec<u32> {
    let mut lines = Vec::new();
    for line in 0..frame_lines {
        if ga.step_hsync(line == vsync_line) {
            lines.push(line);
        }
    }
    lines
}

#[test]
fn interrupt_every_52_lines_without_vsync() {
    let mut ga = GateArray::new();
    assert_eq!(interrupt_lines(&mut ga, u32::MAX, 312), vec![51, 103, 155, 207, 259, 311]);
}

#[test]
fn interrupt_fires_two_lines_after_vsync_start() {
    let mut ga = GateArray::new();
    let vsync_line = 240;
    interrupt_lines(&mut ga, vsync_line, 312);
    let lines = interrupt_lines(&mut ga, vsync_line, 312);
    assert!(lines.contains(&(vsync_line + 2)), "aucune interruption 2 lignes après le VSYNC : {lines:?}");
}

#[test]
fn vsync_forces_interrupt_when_bit5_clear() {
    let mut ga = GateArray::new();
    ga.hsync_counter = 10;
    assert!(!ga.step_hsync(true));
    assert!(!ga.step_hsync(false));
    assert!(ga.step_hsync(false));
    assert_eq!(ga.hsync_counter, 0);
}

#[test]
fn vsync_resets_counter_without_interrupt_when_bit5_set() {
    let mut ga = GateArray::new();
    ga.hsync_counter = 40;
    assert!(!ga.step_hsync(true));
    assert!(!ga.step_hsync(false));
    assert!(!ga.step_hsync(false));
    assert_eq!(ga.hsync_counter, 0);
}

#[test]
fn the_mode_register_sets_the_rom_enables_and_resets_the_counter() {
    let mut ga = GateArray::new();
    let mut rom_low = true;
    let mut rom_high = true;
    ga.hsync_counter = 30;
    ga.write_register(0x9E, &mut rom_low, &mut rom_high); // mode 2, both ROMs off, reset
    assert_eq!(ga.video_mode, 2);
    assert!(!rom_low && !rom_high);
    assert_eq!(ga.hsync_counter, 0);
    ga.write_register(0xC0, &mut rom_low, &mut rom_high); // MMU: not for the GA chip
    assert_eq!(ga.video_mode, 2);
    ga.hsync_counter = 0x25;
    ga.acknowledge_interrupt();
    assert_eq!(ga.hsync_counter, 0x05);
}
