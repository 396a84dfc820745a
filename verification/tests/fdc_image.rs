use bytebox::fdc::DskImage;

fn standard_header(tracks: u8, sides: u8, track_size: u16) -> Vec<u8> {
    let mut h = vec![0u8; 0x100];
    h[..8].copy_from_slice(b"MV - CPC");
    h[0x30] = tracks;
    h[0x31] = sides;
    h[0x32..0x34].copy_from_slice(&track_size.to_le_bytes());
    h
}

#[test]
fn a_file_without_signature_is_refused() {
    assert!(DskImage::parse(b"NOT A DISC IMAGE AT ALL").is_err());
    assert!(DskImage::parse(&[]).is_err());
}

#[test]
fn a_standard_image_with_one_track_is_decoded() {
    let mut data = standard_header(1, 1, 0x100 + 512);
    let mut track = vec![0u8; 0x100 + 512];
    track[..12].copy_from_slice(b"Track-Info\r\n");
    track[0x10] = 0;
    track[0x11] = 0;
    track[0x14] = 2;
    track[0x15] = 1;
    track[0x18] = 0;
    track[0x19] = 0;
    track[0x1A] = 0xC1;
    track[0x1B] = 2;
    for b in &mut track[0x100..] {
        *b = 0x5A;
    }
    data.extend_from_slice(&track);
    let img = DskImage::parse(&data).expect("image valide");
    assert_eq!(img.tracks.len(), 1);
    assert_eq!(img.tracks[0].sectors.len(), 1);
    assert_eq!(img.tracks[0].sectors[0].id, 0xC1);
    assert_eq!(img.tracks[0].sectors[0].size, 512);
    assert!(img.tracks[0].sectors[0].data.iter().all(|&b| b == 0x5A));
}

#[test]
fn each_refused_image_says_why() {
    assert_eq!(DskImage::parse(&[]).err().as_deref(), Some("Fichier DSK trop court"));
    assert_eq!(
        DskImage::parse(&[0u8; 0x100]).err().as_deref(),
        Some("Format DSK non reconnu (signature invalide)")
    );
    assert_eq!(
        DskImage::parse(&standard_header(40, 1, 0)).err().as_deref(),
        Some("Taille de piste nulle dans l'en-tête DSK")
    );
}
