use bytebox::dsk_writer::is_writable;
use bytebox::fdc::{DskImage, Fdc, FdcPhase, Sector, Track, REVOLUTION_TICKS};

fn fdc_with_track(sectors: Vec<Sector>) -> Fdc {
    let mut fdc = Fdc::new();
    fdc.drive_a.disk_loaded = true;
    fdc.drive_a.dsk = Some(DskImage { tracks: vec![Track { number: 1, side: 0, sector_size: 2, sectors }] });
    fdc
}

fn send_command(fdc: &mut Fdc, bytes: &[u8]) {
    for &b in bytes {
        fdc.write_data(b);
    }
}

#[test]
fn read_deleted_data_finds_a_sector_read_data_cannot_see() {
    let mut fdc = fdc_with_track(vec![Sector { id: 0x88, size: 512, data: vec![0x42; 512], deleted: true }]);
    send_command(&mut fdc, &[0x06, 0x00, 0x01, 0x00, 0x88, 0x02, 0x88, 0x2A, 0xFF]);
    assert_eq!(fdc.phase, FdcPhase::Result);
    assert_eq!(fdc.result_buffer[0] & 0x40, 0x40, "ST0 doit signaler une terminaison anormale");
    assert_eq!(fdc.result_buffer[1] & 0x04, 0x04, "ST1 doit signaler No Data");

    let mut fdc = fdc_with_track(vec![Sector { id: 0x88, size: 512, data: vec![0x42; 512], deleted: true }]);
    send_command(&mut fdc, &[0x0C, 0x00, 0x01, 0x00, 0x88, 0x02, 0x88, 0x2A, 0xFF]);
    assert_eq!(fdc.phase, FdcPhase::ExecutionRead);
    assert_eq!(fdc.result_buffer[0], 0x00, "ST0 doit signaler un succes");
    assert_eq!(fdc.execution_buffer, vec![0x42; 512]);
}

#[test]
fn read_deleted_data_does_not_see_a_normal_sector() {
    let mut fdc = fdc_with_track(vec![Sector { id: 0x41, size: 512, data: vec![0x99; 512], deleted: false }]);
    send_command(&mut fdc, &[0x0C, 0x00, 0x01, 0x00, 0x41, 0x02, 0x41, 0x2A, 0xFF]);
    assert_eq!(fdc.phase, FdcPhase::Result);
    assert_eq!(fdc.result_buffer[1] & 0x04, 0x04, "ST1 doit signaler No Data");
}

#[test]
fn successive_read_ids_walk_the_whole_track() {
    let mut fdc = fdc_with_track(
        [0xC1u8, 0xC6, 0xC2]
            .iter()
            .map(|&id| Sector { id, size: 512, data: vec![0; 512], deleted: false })
            .collect(),
    );
    fdc.drive_a.current_track = 1;
    let mut lus = Vec::new();
    for _ in 0..6 {
        send_command(&mut fdc, &[0x0A, 0x00]);
        assert_eq!(fdc.phase, FdcPhase::Result);
        lus.push(fdc.result_buffer[5]);
        assert!(fdc.busy_ticks > 0, "Read ID doit demander du temps");
        let attente = fdc.busy_ticks;
        fdc.tick(attente);
        for _ in 0..7 {
            fdc.read_data();
        }
    }
    assert_eq!(lus, vec![0xC6, 0xC2, 0xC1, 0xC6, 0xC2, 0xC1], "les identifiants doivent défiler dans l'ordre de la piste, en boucle");
}

#[test]
fn the_status_register_says_busy_until_the_sector_comes_round() {
    let mut fdc = fdc_with_track(vec![Sector { id: 0xC1, size: 512, data: vec![0; 512], deleted: false }]);
    fdc.drive_a.current_track = 1;
    send_command(&mut fdc, &[0x0A, 0x00]);
    assert_eq!(fdc.read_msr() & 0x80, 0x00, "RQM doit rester à 0");
    assert_eq!(fdc.read_msr() & 0x10, 0x10, "le FDC doit se dire occupé");
    let attente = fdc.busy_ticks;
    fdc.tick(attente - 1);
    assert_eq!(fdc.read_msr() & 0x80, 0x00);
    fdc.tick(1);
    assert_eq!(fdc.read_msr() & 0xC0, 0xC0, "le résultat doit être disponible une fois le secteur arrivé");
}

#[test]
fn a_full_turn_of_read_ids_fits_in_one_revolution() {
    let mut fdc = fdc_with_track(
        (0..9).map(|i| Sector { id: 0xC1 + i, size: 512, data: vec![0; 512], deleted: false }).collect(),
    );
    fdc.drive_a.current_track = 1;
    let mut total = 0u64;
    for _ in 0..9 {
        send_command(&mut fdc, &[0x0A, 0x00]);
        let attente = fdc.busy_ticks;
        total += attente as u64;
        fdc.tick(attente);
        for _ in 0..7 {
            fdc.read_data();
        }
    }
    assert!(total <= REVOLUTION_TICKS as u64, "un tour de 9 secteurs prend {total} cycles, plus qu'une révolution");
    assert!(total * 10 > REVOLUTION_TICKS as u64 * 7, "un tour de 9 secteurs ne prend que {total} cycles : bien trop rapide");
}

#[test]
fn a_blank_disk_has_forty_tracks_of_nine_filled_sectors() {
    let dsk = Fdc::blank_dsk_image();
    assert_eq!(dsk.tracks.len(), 40);
    for (n, track) in dsk.tracks.iter().enumerate() {
        assert_eq!(track.number as usize, n);
        assert_eq!(track.sectors.len(), 9, "9 secteurs par piste attendus");
        for (i, sec) in track.sectors.iter().enumerate() {
            assert_eq!(sec.id as usize, 0xC1 + i);
            assert_eq!(sec.size, 512);
            assert!(sec.data.iter().all(|&b| b == 0xE5), "secteur vierge attendu (bourrage 0xE5)");
        }
    }
}

#[test]
fn writing_a_sector_updates_the_image_and_asks_for_its_file() {
    let mut fdc = Fdc::new();
    fdc.insert_disk(Fdc::blank_dsk_image(), "disc.dsk".to_string());
    send_command(&mut fdc, &[0x05, 0x00, 0x00, 0x00, 0xC1, 0x02, 0xC1, 0x2A, 0xFF]);
    assert_eq!(fdc.phase, FdcPhase::ExecutionWrite);
    for _ in 0..512 {
        fdc.write_data(0xAA);
    }
    assert_eq!(fdc.phase, FdcPhase::Result, "l'ecriture du secteur doit s'etre terminee");
    assert_eq!(fdc.result_buffer[0], 0x00);
    assert_eq!(fdc.result_buffer[5], 0xC2, "secteur suivant");
    assert_eq!(fdc.take_dsk_to_persist(), Some(0), "le fichier du lecteur A doit etre reecrit");
    assert_eq!(fdc.take_dsk_to_persist(), None);
    let dsk = fdc.drive_a.dsk.as_ref().unwrap();
    let sector = dsk.tracks[0].sectors.iter().find(|s| s.id == 0xC1).unwrap();
    assert!(sector.data.iter().all(|&b| b == 0xAA));
}

#[test]
fn writing_a_missing_sector_reports_no_data() {
    let mut fdc = Fdc::new();
    fdc.insert_disk(Fdc::blank_dsk_image(), "None".to_string());
    send_command(&mut fdc, &[0x05, 0x00, 0x00, 0x00, 0x01, 0x00, 0x01, 0x2A, 0xFF]);
    for _ in 0..128 {
        fdc.write_data(0x11);
    }
    assert_eq!(fdc.phase, FdcPhase::Result);
    assert_eq!(fdc.result_buffer[0], 0x40);
    assert_eq!(fdc.result_buffer[1], 0x04);
    assert_eq!(fdc.take_dsk_to_persist(), None);
}

#[test]
fn formatting_a_track_rebuilds_it_from_the_descriptors() {
    let mut fdc = Fdc::new();
    fdc.insert_disk(Fdc::blank_dsk_image(), "disc.dsk".to_string());
    // Seek to track 3 first.
    send_command(&mut fdc, &[0x0F, 0x00, 0x03]);
    send_command(&mut fdc, &[0x08]);
    assert_eq!(fdc.result_buffer, vec![0x20, 0x03]);
    fdc.read_data();
    fdc.read_data();
    // Format Track: N=1 (256 bytes), 2 sectors, filler 0x33.
    send_command(&mut fdc, &[0x0D, 0x00, 0x01, 0x02, 0x2A, 0x33]);
    send_command(&mut fdc, &[3, 0, 0x41, 1, 3, 0, 0x42, 1]);
    assert_eq!(fdc.phase, FdcPhase::Result);
    assert_eq!(fdc.result_buffer, vec![0, 0, 0, 3, 0, 0, 1]);
    let track = &fdc.drive_a.dsk.as_ref().unwrap().tracks[3];
    assert_eq!(track.sectors.len(), 2);
    assert_eq!(track.sectors[1].id, 0x42);
    assert_eq!(track.sectors[1].size, 256);
    assert!(track.sectors[0].data.iter().all(|&b| b == 0x33));
    assert_eq!(fdc.take_dsk_to_persist(), Some(0));
}

#[test]
fn drive_b_answers_only_when_enabled() {
    let mut fdc = Fdc::new();
    assert!(fdc.insert_disk_b(Fdc::blank_dsk_image(), "b.dsk".to_string()).is_err());
    assert!(!fdc.eject_disk_b());
    // Sense Drive Status on drive B: not ready.
    send_command(&mut fdc, &[0x04, 0x01]);
    assert_eq!(fdc.result_buffer, vec![0x08]);
    fdc.read_data();
    fdc.set_drive_b_enabled(true);
    assert!(fdc.insert_disk_b(Fdc::blank_dsk_image(), "b.dsk".to_string()).is_ok());
    send_command(&mut fdc, &[0x04, 0x01]);
    assert_eq!(fdc.result_buffer, vec![0x34]);
}

#[test]
fn an_unknown_command_is_invalid() {
    let mut fdc = Fdc::new();
    send_command(&mut fdc, &[0x1F]);
    assert_eq!(fdc.phase, FdcPhase::Result);
    assert_eq!(fdc.read_data(), 0x80);
    assert_eq!(fdc.phase, FdcPhase::Command);
    assert_eq!(fdc.read_msr(), 0x80);
}

#[test]
fn a_blank_disk_survives_a_round_trip_through_a_dsk_file() {
    let dsk = Fdc::blank_dsk_image();
    let raw = bytebox::dsk_writer::dsk_file_bytes(&dsk);

    let reloaded = DskImage::parse(&raw).expect(".dsk vierge non reconnu");
    assert_eq!(reloaded.tracks.len(), dsk.tracks.len());
    for track in &reloaded.tracks {
        assert_eq!(track.sectors.len(), 9, "9 secteurs par piste attendus");
        for sec in &track.sectors {
            assert_eq!(sec.size, 512);
            assert!(sec.data.iter().all(|&b| b == 0xE5), "secteur vierge attendu (bourrage 0xE5)");
        }
    }
}

#[test]
fn writing_a_sector_persists_to_the_dsk_file_on_disk() {
    let dsk = Fdc::blank_dsk_image();
    let raw = bytebox::dsk_writer::dsk_file_bytes(&dsk);

    let mut fdc = Fdc::new();
    fdc.insert_disk(DskImage::parse(&raw).expect(".dsk vierge"), String::from("vierge.dsk"));

    send_command(&mut fdc, &[0x05, 0x00, 0x00, 0x00, 0xC1, 0x02, 0xC1, 0x2A, 0xFF]);
    for _ in 0..512 {
        fdc.write_data(0xAA);
    }
    assert_eq!(fdc.phase, FdcPhase::Result, "l'ecriture du secteur doit s'etre terminee");

    // Le lecteur a modifier est signale ; son image est celle a reecrire.
    assert_eq!(fdc.take_dsk_to_persist(), Some(0));
    let image = fdc.drive_a.dsk.as_ref().expect("image du lecteur A");
    let raw = bytebox::dsk_writer::dsk_file_bytes(image);
    let reread = DskImage::parse(&raw).expect(".dsk relu invalide");
    let sector = reread
        .tracks
        .iter()
        .find(|t| t.number == 0 && t.side == 0)
        .and_then(|t| t.sectors.iter().find(|s| s.id == 0xC1))
        .expect("secteur 0xC1 absent du fichier relu");
    assert!(
        sector.data.iter().all(|&b| b == 0xAA),
        "le fichier sur disque doit refleter l'ecriture, pas rester au bourrage d'origine"
    );
}

#[test]
fn the_dsk_header_counts_tracks_and_sides_and_sizes_the_blocks() {
    let dsk = Fdc::blank_dsk_image();
    let raw = bytebox::dsk_writer::dsk_file_bytes(&dsk);
    assert_eq!(&raw[..8], b"MV - CPC");
    assert_eq!(raw[0x30], 40);
    assert_eq!(raw[0x31], 1);
    assert_eq!(u16::from_le_bytes([raw[0x32], raw[0x33]]), 0x100 + 9 * 512);
    assert_eq!(raw.len(), 0x100 + 40 * (0x100 + 9 * 512));
    assert_eq!(&raw[0x100..0x10C], b"Track-Info\r\n");
    // Premiere entree de secteur : piste 0, face 0, id 0xC1, taille 512 (N = 2).
    assert_eq!(&raw[0x118..0x11C], &[0, 0, 0xC1, 2]);
}

#[test]
fn a_blank_disc_can_be_written_but_not_one_with_a_short_sector() {
    let blank = Fdc::blank_dsk_image();
    assert!(is_writable(&blank));
    let mut broken = Fdc::blank_dsk_image();
    broken.tracks[3].sectors[2].data.truncate(100);
    assert!(!is_writable(&broken));
    let mut last_number = Fdc::blank_dsk_image();
    last_number.tracks[0].number = 255;
    assert!(!is_writable(&last_number));
}
