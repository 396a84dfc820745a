use bytebox::tape::{Block, CdtImage, Tape};

fn cdt_header() -> Vec<u8> {
    let mut v = b"ZXTape!\x1A".to_vec();
    v.push(1);
    v.push(20);
    v
}

fn standard_block(data: &[u8], pause_ms: u16) -> Vec<u8> {
    let mut v = vec![0x10];
    v.extend_from_slice(&pause_ms.to_le_bytes());
    v.extend_from_slice(&(data.len() as u16).to_le_bytes());
    v.extend_from_slice(data);
    v
}

fn running_tape(image: CdtImage) -> Tape {
    let mut tape = Tape::new();
    tape.insert_tape(image, "test.cdt".to_string());
    tape.motor_on = true;
    tape
}

#[test]
fn a_truncated_file_is_rejected_without_panicking() {
    let mut data = cdt_header();
    data.push(0x10);
    data.extend_from_slice(&[0x00, 0x00]);
    data.extend_from_slice(&[0x05, 0x00]);
    assert!(CdtImage::parse(&data).is_err());
}

#[test]
fn a_bad_signature_is_rejected() {
    let data = b"NOT A CDT FILE".to_vec();
    assert!(CdtImage::parse(&data).is_err());
}

#[test]
fn an_unknown_block_id_is_rejected_rather_than_desyncing() {
    let mut data = cdt_header();
    data.push(0xFF);
    assert!(CdtImage::parse(&data).is_err());
}

#[test]
fn a_minimal_tape_produces_a_pilot_tone_then_toggles_on_data() {
    let mut data = cdt_header();
    data.extend_from_slice(&standard_block(&[0xFF], 10));
    let image = CdtImage::parse(&data).expect("fichier valide");
    assert_eq!(image.blocks.len(), 1);

    let mut tape = running_tape(image);
    assert!(!tape.read_bit());
    let initial_level = tape.read_bit();
    let mut toggled = false;
    for _ in 0..10 {
        tape.tick(2168);
        if tape.read_bit() != initial_level {
            toggled = true;
            break;
        }
    }
    assert!(toggled, "le niveau doit basculer pendant le pilote");
}

#[test]
fn the_motor_being_off_freezes_the_signal() {
    let mut data = cdt_header();
    data.extend_from_slice(&standard_block(&[0xFF], 10));
    let image = CdtImage::parse(&data).expect("fichier valide");
    let mut tape = running_tape(image);
    tape.motor_on = false;
    let level_before = tape.read_bit();
    tape.tick(1_000_000);
    assert_eq!(tape.read_bit(), level_before, "moteur arrete : le signal ne doit pas bouger");
}

#[test]
fn a_stop_the_tape_pause_halts_playback() {
    let mut data = cdt_header();
    data.push(0x20);
    data.extend_from_slice(&0u16.to_le_bytes());
    let image = CdtImage::parse(&data).expect("fichier valide");
    assert_eq!(image.blocks.len(), 1);
    let mut tape = running_tape(image);
    let level_before = tape.read_bit();
    tape.tick(1_000_000);
    assert_eq!(tape.read_bit(), level_before, "un bloc Stop doit figer le signal, pas le faire osciller");
}

#[test]
fn turbo_block_with_nonstandard_timing_is_decoded() {
    let mut data = cdt_header();
    let mut block = vec![0x11];
    block.extend_from_slice(&1000u16.to_le_bytes());
    block.extend_from_slice(&500u16.to_le_bytes());
    block.extend_from_slice(&600u16.to_le_bytes());
    block.extend_from_slice(&400u16.to_le_bytes());
    block.extend_from_slice(&900u16.to_le_bytes());
    block.extend_from_slice(&50u16.to_le_bytes());
    block.push(8);
    block.extend_from_slice(&0u16.to_le_bytes());
    let payload = [0xAAu8];
    block.extend_from_slice(&(payload.len() as u32).to_le_bytes()[..3]);
    block.extend_from_slice(&payload);
    data.extend_from_slice(&block);

    let image = CdtImage::parse(&data).expect("fichier valide");
    assert_eq!(image.blocks.len(), 1);
    let mut tape = running_tape(image);
    let initial = tape.read_bit();
    tape.tick(1000 * 50);
    assert_eq!(tape.read_bit(), initial, "50 bascules (pair) doit revenir au niveau de depart");
}

#[test]
fn metadata_blocks_are_skipped_with_their_length() {
    let mut data = cdt_header();
    data.extend_from_slice(&[0x30, 3, b'a', b'b', b'c']); // text description
    data.extend_from_slice(&[0x21, 1, b'x']); // group start
    data.push(0x22); // group end
    data.extend_from_slice(&[0x20, 0x64, 0x00]); // 100 ms pause
    let image = CdtImage::parse(&data).expect("fichier valide");
    assert_eq!(image.blocks.len(), 4);
    assert!(matches!(image.blocks[0], Block::Meta));
    assert!(matches!(image.blocks[3], Block::Pause { pause_ms: 100 }));
}

#[test]
fn ejecting_stops_the_tape() {
    let mut data = cdt_header();
    data.extend_from_slice(&standard_block(&[0xFF], 10));
    let image = CdtImage::parse(&data).expect("fichier valide");
    let mut tape = running_tape(image);
    assert_eq!(tape.current_filename.as_deref(), Some("test.cdt"));
    tape.eject();
    assert!(tape.current_filename.is_none());
    tape.tick(10_000);
    assert!(!tape.read_bit());
}

#[test]
fn the_error_names_the_unknown_block_and_where_it_stands() {
    let mut data = cdt_header();
    data.push(0xFF);
    let err = match CdtImage::parse(&data) {
        Err(e) => e,
        Ok(_) => panic!("an unknown block must be refused"),
    };
    assert_eq!(
        err,
        "Bloc CDT inconnu (ID 0xFF à l'offset 11) : lecture arrêtée pour ne pas désynchroniser le flux"
    );
    let mut truncated = cdt_header();
    truncated.extend_from_slice(&[0x10, 0x00]);
    match CdtImage::parse(&truncated) {
        Err(e) => assert!(e.starts_with("CDT tronqué"), "{e}"),
        Ok(_) => panic!("a truncated block must be refused"),
    }
}

#[test]
fn each_refusal_says_where_the_file_falls_short() {
    let mut fields = cdt_header();
    fields.extend_from_slice(&[0x10, 0x00]);
    assert_eq!(CdtImage::parse(&fields).err().as_deref(), Some("CDT tronqué à l'octet 12"));
    let mut payload = cdt_header();
    payload.extend_from_slice(&[0x10, 0xE8, 0x03, 0x05, 0x00, 0xAA]);
    assert_eq!(
        CdtImage::parse(&payload).err().as_deref(),
        Some("CDT tronqué : 5 octets attendus à l'offset 15")
    );
    assert_eq!(
        CdtImage::parse(b"NOT A TAPE").err().as_deref(),
        Some("Signature CDT absente ou invalide (attendu \"ZXTape!\")")
    );
}
