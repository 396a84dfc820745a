use bytebox::engine::memory::{extra_ram_warning, Memory, MAX_EXTRA_RAM_GROUPS};

#[test]
fn without_extra_banks_every_port_behaves_like_the_standard_one() {
    for port_high in 0x78u16..=0x7F {
        let mut mem = Memory::new(0);
        mem.write_mmu_register(port_high << 8, 0xC4);
        assert_eq!(
            mem.get_ram_physical_address(0x4000),
            4 * 16384,
            "port {port_high:#04X} : page 1 doit suivre le config standard"
        );
    }
}

#[test]
fn an_installed_extended_bank_remaps_page_one_without_touching_standard_ram() {
    let mut mem = Memory::new(1);
    mem.write_mmu_register(0x7F00, 0xC0);
    mem.write_byte(0x0000, 0xAA);

    mem.write_mmu_register(0x7E00, 0xC4);
    let extended_addr = mem.get_ram_physical_address(0x4000);
    assert!(extended_addr >= 8 * 16384, "la page 1 doit pointer au-dela des 128 Ko standard, pas dedans");
    mem.write_byte(0x4000, 0x55);

    mem.write_mmu_register(0x7F00, 0xC0);
    assert_eq!(mem.read_ram_byte(0x0000), 0xAA);
    assert_eq!(
        mem.read_ram_byte(0x4000),
        0,
        "page 1 en config standard 0 doit lire la banque physique 1, jamais touchee (encore a zero)"
    );

    mem.write_mmu_register(0x7E00, 0xC4);
    assert_eq!(mem.read_ram_byte(0x4000), 0x55);
}

#[test]
fn an_uninstalled_group_falls_back_to_the_standard_config() {
    let mut mem = Memory::new(1);
    mem.write_mmu_register(0x7E00, 0xCC);
    assert_eq!(
        mem.get_ram_physical_address(0x4000),
        (0xCC_u8 & 0x07) as usize * 16384,
        "groupe non installe : page 1 doit suivre le config standard (bits bas de la valeur)"
    );
}

#[test]
fn writing_to_the_standard_port_releases_the_extended_bank() {
    let mut mem = Memory::new(1);
    mem.write_mmu_register(0x7E00, 0xC4);
    assert!(mem.get_ram_physical_address(0x4000) >= 8 * 16384);
    mem.write_mmu_register(0x7F00, 0xC0);
    assert_eq!(mem.get_ram_physical_address(0x4000), 16384);
}

#[test]
fn extra_ram_banks_is_capped_to_the_addressable_maximum() {
    let mem = Memory::new(MAX_EXTRA_RAM_GROUPS + 100);
    assert_eq!(mem.extra_ram_banks, MAX_EXTRA_RAM_GROUPS);
    assert_eq!(
        extra_ram_warning(MAX_EXTRA_RAM_GROUPS + 100).as_deref(),
        Some("Config: memory.extra_ram_banks=156 exceeds the addressable maximum (56), capped.")
    );
}

#[test]
fn no_warning_while_the_extra_ram_fits() {
    assert_eq!(extra_ram_warning(0), None);
    assert_eq!(extra_ram_warning(MAX_EXTRA_RAM_GROUPS), None);
    assert!(extra_ram_warning(MAX_EXTRA_RAM_GROUPS + 1).is_some());
}

#[test]
fn roms_shadow_ram_on_read_but_not_on_write() {
    let mut mem = Memory::new(0);
    mem.load_low_rom(&[0x11, 0x22]);
    mem.write_byte(0x0001, 0x99);
    assert_eq!(mem.read_byte(0x0001), 0x22, "la ROM basse masque la RAM en lecture");
    assert_eq!(mem.read_ram_byte(0x0001), 0x99, "l'ecriture va en RAM");
    mem.rom_low_enabled = false;
    assert_eq!(mem.read_byte(0x0001), 0x99);
}

#[test]
fn an_absent_upper_rom_reads_as_rom_zero_then_as_0xff() {
    let mut mem = Memory::new(0);
    mem.select_high_rom(7);
    assert_eq!(mem.effective_high_rom(), None);
    assert_eq!(mem.read_byte(0xC000), 0xFF);
    mem.load_high_rom(0, &[0x42]);
    assert_eq!(mem.effective_high_rom(), Some(0));
    assert_eq!(mem.read_byte(0xC000), 0x42);
    mem.load_high_rom(7, &[0x77]);
    assert_eq!(mem.effective_high_rom(), Some(7));
    assert_eq!(mem.read_byte(0xC000), 0x77);
}

#[test]
fn the_standard_mappings_cover_the_eight_configurations() {
    let mut mem = Memory::new(0);
    mem.write_mmu_register(0x7F00, 0xC2);
    assert_eq!(mem.standard_bank_mapping(), [4, 5, 6, 7]);
    mem.write_mmu_register(0x7F00, 0xC3);
    assert_eq!(mem.standard_bank_mapping(), [0, 3, 2, 7]);
    assert_eq!(mem.extended_page1_bank(), None);
}

#[test]
fn a_combined_system_rom_is_split_between_os_and_basic() {
    let mut m = Memory::new(0);
    let mut image = vec![0x11u8; 0x4000];
    image.extend(vec![0x22u8; 0x4000]);
    assert!(m.load_system_rom(&image));
    assert_eq!(m.rom_low[0], 0x11);
    assert_eq!(m.rom_low[0x3FFF], 0x11);
    assert_eq!(m.rom_high[0], 0x22);
    assert!(m.rom_high_present[0]);

    let mut os_only = Memory::new(0);
    assert!(!os_only.load_system_rom(&[0x33u8; 0x4000]));
    assert_eq!(os_only.rom_low[5], 0x33);
    assert!(!os_only.rom_high_present[0]);
}
