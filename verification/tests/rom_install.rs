use bytebox::rom_installer::{
    add_optional, extract_entries, install_from_zip, installed_file, InstalledFile, AZERTY_ROMS_ENTRIES,
    DIAGNOSTIC_ROM_ENTRIES,
};
use std::io::Write;

/// A small stored zip archive holding `entries`, built in memory.
fn build_zip(entries: &[(&str, &[u8])]) -> Vec<u8> {
    let mut buf = Vec::new();
    {
        let mut writer = zip::ZipWriter::new(std::io::Cursor::new(&mut buf));
        let options = zip::write::SimpleFileOptions::default().compression_method(zip::CompressionMethod::Stored);
        for &(name, content) in entries {
            writer.start_file(name, options).unwrap();
            writer.write_all(content).unwrap();
        }
        writer.finish().unwrap();
    }
    buf
}

#[test]
fn install_from_zip_extracts_only_the_requested_entries_under_their_canonical_name() {
    let zip = build_zip(&[
        ("CPC6128.ROM", b"os+basic content"),
        ("CPCADOS.ROM", b"amsdos content"),
        ("FILE_ID.DIZ", b"ignored"),
    ]);
    let installed = install_from_zip(
        &zip,
        &[("CPC6128.ROM", "OS6128-AZERTY.rom"), ("CPCADOS.ROM", "AMSDOS.ROM")],
        &[],
    )
    .expect("the installation succeeds");

    assert_eq!(installed.len(), 2);
    assert_eq!(installed[0].0.filename, "OS6128-AZERTY.rom");
    assert_eq!(installed[0].0.bytes, "os+basic content".len());
    assert_eq!(installed[0].0.previous_crc32, None, "nothing was there before");
    assert_eq!(installed[0].1, b"os+basic content");
    assert_eq!(installed[1].0.filename, "AMSDOS.ROM");
    assert_eq!(installed[1].1, b"amsdos content");
    assert!(
        installed.iter().all(|(f, _)| f.filename != "FILE_ID.DIZ"),
        "only the entries asked for are extracted"
    );
}

#[test]
fn install_from_zip_reports_the_previous_crc32_when_a_file_is_overwritten() {
    let zip = build_zip(&[("CPCADOS.ROM", b"new content")]);
    let existing = vec![("AMSDOS.ROM".to_string(), b"old content".to_vec())];
    let installed = install_from_zip(&zip, &[("CPCADOS.ROM", "AMSDOS.ROM")], &existing).expect("succeeds");

    assert_eq!(
        installed[0].0.previous_crc32,
        Some(crc32fast::hash(b"old content")),
        "the CRC32 of the file replaced is reported"
    );
    assert_eq!(installed[0].0.crc32, crc32fast::hash(b"new content"));
}

#[test]
fn install_from_zip_fails_clearly_when_an_entry_is_missing() {
    let zip = build_zip(&[("SOMETHING_ELSE.ROM", b"content")]);
    let err = install_from_zip(&zip, &[("CPC6128.ROM", "OS6128-AZERTY.rom")], &[])
        .expect_err("the entry asked for is not in this archive");
    assert!(err.contains("CPC6128.ROM"), "unhelpful error: {err}");
    assert!(err.starts_with("Entry \"CPC6128.ROM\" not found in the archive: "), "{err}");
}

#[test]
fn bytes_that_are_no_archive_are_reported_as_such() {
    let err = extract_entries(b"not a zip at all", &[]).expect_err("no archive");
    assert!(err.starts_with("Invalid zip archive: "), "{err}");
}

#[test]
fn entries_come_out_in_the_order_asked_with_their_content() {
    let zip = build_zip(&[("A.ROM", b"aaa"), ("B.ROM", b"bb")]);
    let files = extract_entries(&zip, &[("B.ROM", "second"), ("A.ROM", "first")]).unwrap();
    assert_eq!(files, vec![("second".to_string(), b"bb".to_vec()), ("first".to_string(), b"aaa".to_vec())]);
    assert_eq!(extract_entries(&zip, &[]).unwrap(), vec![]);
}

#[test]
fn the_first_file_of_a_name_is_the_one_replaced() {
    let zip = build_zip(&[("X", b"new")]);
    let existing = vec![
        ("other".to_string(), b"zzz".to_vec()),
        ("dest".to_string(), b"123456789".to_vec()),
        ("dest".to_string(), b"later".to_vec()),
    ];
    let installed = install_from_zip(&zip, &[("X", "dest")], &existing).unwrap();
    assert_eq!(installed[0].0.previous_crc32, Some(0xCBF4_3926));
}

#[test]
fn the_crc32_of_an_installed_file_is_the_standard_one() {
    let f = installed_file("AMSDOS.ROM", b"123456789", None);
    assert_eq!(f.filename, "AMSDOS.ROM");
    assert_eq!(f.bytes, 9);
    assert_eq!(f.crc32, 0xCBF4_3926);
    assert_eq!(f.previous_crc32, None);
}

#[test]
fn the_previous_file_crc32_is_reported_when_overwritten() {
    let f = installed_file("OS6128-AZERTY.rom", b"new", Some(b"123456789"));
    assert_eq!(f.previous_crc32, Some(0xCBF4_3926));
    let empty = installed_file("x", b"", Some(b""));
    assert_eq!(empty.crc32, 0);
    assert_eq!(empty.previous_crc32, Some(0));
}

fn file(name: &str) -> InstalledFile {
    installed_file(name, b"rom", None)
}

#[test]
fn an_optional_rom_that_installed_joins_the_list() {
    let (all, message) = add_optional(vec![file("A")], Ok(vec![file("B"), file("C")]));
    let names: Vec<&str> = all.iter().map(|f| f.filename.as_str()).collect();
    assert_eq!(names, vec!["A", "B", "C"]);
    assert!(message.is_none());
}

#[test]
fn an_optional_rom_that_failed_is_reported_without_failing() {
    let (all, message) = add_optional(vec![file("A")], Err("no network".to_string()));
    assert_eq!(all.len(), 1);
    assert_eq!(
        message.as_deref(),
        Some("Diagnostic ROM install failed (optional, skipped): no network")
    );
}

#[test]
fn the_archives_name_their_canonical_files() {
    assert_eq!(AZERTY_ROMS_ENTRIES[0], ("CPC6128.ROM", "OS6128-AZERTY.rom"));
    assert_eq!(AZERTY_ROMS_ENTRIES[1], ("CPCADOS.ROM", "AMSDOS.ROM"));
    assert_eq!(DIAGNOSTIC_ROM_ENTRIES[0].1, "AmstradDiagUpper.rom");
}
