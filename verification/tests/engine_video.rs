use bytebox::engine::crtc::Crtc;
use bytebox::engine::memory::Memory;
use bytebox::engine::video::{
    capture_scanline_chars, char_x, draw_pixel_run, put_pixel, render_byte_mode0, render_byte_mode1,
    render_byte_mode2, scanline_y, PIXELS_PER_CHAR, PIXELS_PER_SCANLINE, SCREEN_HEIGHT, SCREEN_WIDTH,
};
use bytebox::gate_array::GateArray;

#[test]
fn standard_screen_is_centered_in_the_window() {
    let crtc = Crtc::new();
    let r2 = crtc.registers[2] as i32;
    let line_chars = crtc.line_chars() as i32;
    let frame = crtc.frame_scanlines() as i32;
    let vsync = crtc.vsync_scanline() as i32;

    assert_eq!(char_x(0, r2, line_chars), 80);
    assert_eq!(scanline_y(0, vsync, frame), 100);
    assert_eq!(char_x(39, r2, line_chars) + PIXELS_PER_CHAR, 80 + 640);
    assert_eq!(scanline_y(199, vsync, frame) + PIXELS_PER_SCANLINE, 100 + 400);
    assert!(80 + 640 <= SCREEN_WIDTH as i32);
    assert!(100 + 400 <= SCREEN_HEIGHT as i32);
}

#[test]
fn delaying_a_sync_moves_the_picture_back() {
    let mut crtc = Crtc::new();
    let line_chars = crtc.line_chars() as i32;

    let x_before = char_x(0, crtc.registers[2] as i32, line_chars);
    crtc.registers[2] += 2;
    let x_after = char_x(0, crtc.registers[2] as i32, line_chars);
    assert_eq!(x_after - x_before, -2 * PIXELS_PER_CHAR);

    let y_before = scanline_y(0, crtc.vsync_scanline() as i32, crtc.frame_scanlines() as i32);
    crtc.registers[7] += 1;
    let y_after = scanline_y(0, crtc.vsync_scanline() as i32, crtc.frame_scanlines() as i32);
    assert_eq!(y_after - y_before, -8 * PIXELS_PER_SCANLINE);
}

#[test]
fn a_write_mid_line_only_shows_on_the_part_not_yet_scanned() {
    let crtc = Crtc::new();
    let mut memory = Memory::new(0);
    let r1 = crtc.registers[1] as usize;
    assert!(r1 > 20, "le test suppose une ligne d'au moins 20 caracteres");

    memory.ram[..64 * 1024].fill(0xAA);
    let mut captured = Vec::new();
    capture_scanline_chars(&crtc, &memory, &mut captured, 10);
    assert_eq!(captured.len(), 20, "10 caracteres = 20 octets");

    memory.ram[..64 * 1024].fill(0x55);
    capture_scanline_chars(&crtc, &memory, &mut captured, r1 as u32);
    assert_eq!(captured.len(), r1 * 2, "toute la ligne doit etre capturee");

    assert!(captured[..20].iter().all(|&b| b == 0xAA), "la moitie gauche, deja balayee, doit garder l'ancien contenu");
    assert!(captured[20..].iter().all(|&b| b == 0x55), "la partie balayee apres l'ecriture doit montrer le nouveau contenu");
}

#[test]
fn capture_stops_at_the_end_of_the_display_window() {
    let crtc = Crtc::new();
    let memory = Memory::new(0);
    let r1 = crtc.registers[1] as usize;
    let mut captured = Vec::new();
    capture_scanline_chars(&crtc, &memory, &mut captured, 64);
    assert_eq!(captured.len(), r1 * 2);
}

#[test]
fn the_first_character_is_read_at_the_screen_start_address() {
    let crtc = Crtc::new();
    let mut memory = Memory::new(0);
    memory.ram[0xC000] = 0x12;
    memory.ram[0xC001] = 0x34;
    let mut captured = Vec::new();
    capture_scanline_chars(&crtc, &memory, &mut captured, 1);
    assert_eq!(captured, vec![0x12, 0x34]);
}

fn pixel(fb: &[u8], x: usize, y: usize) -> (u8, u8, u8) {
    let i = (y * SCREEN_WIDTH + x) * 3;
    (fb[i], fb[i + 1], fb[i + 2])
}

#[test]
fn pixels_outside_the_window_are_dropped() {
    let mut fb = vec![0u8; SCREEN_WIDTH * SCREEN_HEIGHT * 3];
    put_pixel(&mut fb, -1, 0, (1, 2, 3));
    put_pixel(&mut fb, SCREEN_WIDTH as i32, 0, (1, 2, 3));
    assert!(fb.iter().all(|&b| b == 0));
    put_pixel(&mut fb, 5, 7, (1, 2, 3));
    assert_eq!(pixel(&fb, 5, 7), (1, 2, 3));
}

#[test]
fn each_mode_paints_eight_buffer_pixels_per_byte() {
    let mut ga = GateArray::new();
    let mut rom_low = true;
    let mut rom_high = true;
    ga.write_register(0x00, &mut rom_low, &mut rom_high);
    ga.write_register(0x54, &mut rom_low, &mut rom_high); // ink 0 black
    ga.write_register(0x01, &mut rom_low, &mut rom_high);
    ga.write_register(0x4B, &mut rom_low, &mut rom_high); // ink 1 white
    let state = ga.state();

    let mut fb = vec![7u8; SCREEN_WIDTH * SCREEN_HEIGHT * 3];
    render_byte_mode2(&state, &mut fb, 0b1000_0001, 100, 10);
    assert_eq!(pixel(&fb, 100, 10), (255, 255, 255));
    assert_eq!(pixel(&fb, 101, 10), (0, 0, 0));
    assert_eq!(pixel(&fb, 107, 10), (255, 255, 255));
    assert_eq!(pixel(&fb, 108, 10), (7, 7, 7));

    // Mode 1: first pixel from bits 7 and 3.
    render_byte_mode1(&state, &mut fb, 0b1000_0000, 200, 10);
    assert_eq!(pixel(&fb, 200, 10), (255, 255, 255));
    assert_eq!(pixel(&fb, 201, 10), (255, 255, 255));
    assert_eq!(pixel(&fb, 202, 10), (0, 0, 0));

    // Mode 0: first pixel from bits 7, 3, 5, 1.
    render_byte_mode0(&state, &mut fb, 0b1000_0000, 300, 10);
    for x in 300..304 {
        assert_eq!(pixel(&fb, x, 10), (255, 255, 255));
    }
    for x in 304..308 {
        assert_eq!(pixel(&fb, x, 10), (0, 0, 0));
    }

    draw_pixel_run(&state, &mut fb, 1, 400, 3, 11);
    assert_eq!(pixel(&fb, 402, 11), (255, 255, 255));
    assert_eq!(pixel(&fb, 403, 11), (7, 7, 7));
}

#[test]
fn a_frame_with_no_display_area_is_all_border() {
    let mut m = bytebox::machine::Machine::new(0, false);
    m.bus.crtc.registers[1] = 0;
    m.bus.gate_array.palette[16] = 0x14; // bordure noire (&54)
    let state = m.bus.gate_array.state();
    for slot in m.scanline_states.iter_mut() {
        *slot = state;
    }
    let mut fb = vec![0xAAu8; 800 * 600 * 3];
    bytebox::engine::video::render(&m, &mut fb);
    assert!(fb.iter().all(|&b| b == 0), "bordure noire partout");
}

#[test]
fn the_display_area_shows_the_ink_of_the_bytes() {
    let mut m = bytebox::machine::Machine::new(0, false);
    // Mode 2, encre 1 blanc brillant (&4B), bordure noire (&54), encre 0 noire.
    m.bus.gate_array.video_mode = 2;
    m.bus.gate_array.palette[0] = 0x14;
    m.bus.gate_array.palette[1] = 0x0B;
    m.bus.gate_array.palette[16] = 0x14;
    let state = m.bus.gate_array.state();
    for slot in m.scanline_states.iter_mut() {
        *slot = state;
    }
    // Ecran en &C000 : tous les octets a &FF.
    for a in 0xC000u32..=0xFFFF {
        m.bus.memory.ram[(3 * 0x4000 + (a - 0xC000)) as usize] = 0xFF;
    }
    m.bus.crtc.registers[12] = 0x30;
    m.bus.crtc.registers[13] = 0x00;
    let mut fb = vec![0u8; 800 * 600 * 3];
    bytebox::engine::video::render(&m, &mut fb);
    let white = fb.chunks_exact(3).filter(|p| p == &[255, 255, 255]).count();
    assert_eq!(white, 640 * 200 * 2, "640x200 pixels blancs, doubles verticalement");
}
