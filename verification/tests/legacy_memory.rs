use bytebox::memory::Memory;

#[test]
fn a_write_is_read_back_through_the_same_mapping() {
    let mut mem = Memory::new();
    mem.ram_config = 2;
    mem.write_byte(0x4123, 0x5A);
    assert_eq!(mem.get_ram_physical_address(0x4123), 5 * 16384 + 0x123);
    assert_eq!(mem.read_byte(0x4123), 0x5A);
}

#[test]
fn an_absent_upper_rom_leaves_the_ram_visible() {
    let mut mem = Memory::new();
    mem.write_byte(0xC000, 0x12);
    mem.select_high_rom(3);
    assert_eq!(mem.read_byte(0xC000), 0x12);
    mem.load_high_rom(3, &[0x34]);
    assert_eq!(mem.read_byte(0xC000), 0x34);
}
