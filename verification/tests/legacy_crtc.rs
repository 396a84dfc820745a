use bytebox::crtc::Crtc;

#[test]
fn a_written_register_reads_back() {
    let mut crtc = Crtc::new();
    crtc.select_register(12);
    crtc.write_data(0x30);
    assert_eq!(crtc.read_data(), 0x30);
}

#[test]
fn an_out_of_range_selection_is_ignored() {
    let mut crtc = Crtc::new();
    crtc.select_register(5);
    crtc.select_register(18);
    assert_eq!(crtc.selected_register, 5);
}
