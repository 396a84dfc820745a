use bytebox::config_file::replace_section;

#[test]
fn saving_twice_replaces_the_section_and_keeps_comments() {
    let original =
        "# mon commentaire\n[drives]\ndrive_b = true\n\n[crt]\nmask_cell_px = 1.0\n\n[debugger]\nkeyboard = true\n";
    let once = replace_section(original, "crt", "mask_cell_px = 2.0\n");
    let twice = replace_section(&once, "crt", "mask_cell_px = 3.0\n");
    assert_eq!(twice.matches("[crt]").count(), 1, "only one [crt] section may remain");
    assert!(twice.contains("mask_cell_px = 3.0"));
    assert!(!twice.contains("mask_cell_px = 1.0"));
    assert!(twice.contains("# mon commentaire"));
    assert!(
        twice.contains("keyboard = true"),
        "the section after [crt] must not be carried away"
    );
    let reread: toml::Table = toml::from_str(&twice).expect("rewritten file invalid");
    let crt = reread["crt"].as_table().expect("crt is a table");
    assert_eq!(crt["mask_cell_px"].as_float(), Some(3.0));
}

#[test]
fn a_missing_section_is_appended_after_a_blank_line() {
    let out = replace_section("[drives]\ndrive_b = true\n", "crt", "mask_cell_px = 2.0\n\n");
    assert_eq!(out, "[drives]\ndrive_b = true\n\n[crt]\nmask_cell_px = 2.0\n");
}

#[test]
fn an_empty_file_gets_only_the_section() {
    let out = replace_section("", "crt", "a = 1");
    assert_eq!(out, "[crt]\na = 1\n");
}

#[test]
fn replacing_keeps_the_following_sections_in_place() {
    let original = "[crt]\nold = 1\n[memory]\nextra_ram_banks = 4\n";
    let out = replace_section(original, "crt", "new = 2\n");
    assert_eq!(out, "[memory]\nextra_ram_banks = 4\n\n[crt]\nnew = 2\n");
}

#[test]
fn a_header_with_spaces_around_it_is_recognised() {
    let original = "  [crt]  \nold = 1\n\n[debugger]\nkeyboard = true\n";
    let out = replace_section(original, "crt", "new = 2");
    assert_eq!(out.matches("[crt]").count(), 1);
    assert!(!out.contains("old = 1"));
    assert!(out.contains("keyboard = true"));
}

use bytebox::config::{
    Config, Debugger, DisplayConfig, DriveConfig, FileConfig, MemoryConfig, RomConfig,
};

#[test]
fn resolve_new_disk_path_joins_a_bare_filename_with_dsk_path() {
    let mut config = Config {
        drives: DriveConfig { drive_b: false },
        debugger: Debugger { keyboard: false, audio: false },
        file: FileConfig { dsk_path: Some("bin".to_string()) },
        display: DisplayConfig::default(),
        memory: MemoryConfig::default(),
        rom: RomConfig::default(),
    };
    assert_eq!(config.resolve_new_disk_path("d.dsk"), "bin/d.dsk");

    config.file.dsk_path = None;
    assert_eq!(
        config.resolve_new_disk_path("d.dsk"),
        "d.dsk",
        "without a configured dsk_path the name is left as it is"
    );

    config.file.dsk_path = Some("bin".to_string());
    assert_eq!(
        config.resolve_new_disk_path("other/d.dsk"),
        "other/d.dsk",
        "a path that already names a directory is not recomposed"
    );
}

#[test]
fn a_disc_directory_ending_with_a_separator_gets_no_second_one() {
    let config = Config {
        drives: DriveConfig { drive_b: false },
        debugger: Debugger { keyboard: false, audio: false },
        file: FileConfig { dsk_path: Some("discs/".to_string()) },
        display: DisplayConfig::default(),
        memory: MemoryConfig::default(),
        rom: RomConfig::default(),
    };
    assert_eq!(config.resolve_new_disk_path("d.dsk"), "discs/d.dsk");
    assert_eq!(config.resolve_new_disk_path("/abs/d.dsk"), "/abs/d.dsk");
}
