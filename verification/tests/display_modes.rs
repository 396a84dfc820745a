use bytebox::display::{ConfigPanel, DisplayMode, ZoomChoice};

#[test]
fn sdl_display_mode_recognizes_the_four_config_values() {
    assert_eq!(DisplayMode::from_config(Some("x1")), DisplayMode::Normal);
    assert_eq!(DisplayMode::from_config(Some("x2")), DisplayMode::X2);
    assert_eq!(DisplayMode::from_config(Some("x3")), DisplayMode::X3);
    assert_eq!(DisplayMode::from_config(Some("fullscreen")), DisplayMode::Fullscreen);
}

#[test]
fn sdl_display_mode_falls_back_to_normal_when_absent_or_unrecognized() {
    assert_eq!(DisplayMode::from_config(None), DisplayMode::Normal);
    assert_eq!(DisplayMode::from_config(Some("XL")), DisplayMode::Normal);
    assert!(!DisplayMode::recognised("XL"));
    assert!(DisplayMode::recognised("x1"));
}

#[test]
fn each_mode_maps_to_its_panel_choice() {
    assert_eq!(DisplayMode::Normal.to_zoom_choice(), ZoomChoice::X1);
    assert_eq!(DisplayMode::X3.to_zoom_choice(), ZoomChoice::X3);
    assert_eq!(DisplayMode::Fullscreen.to_zoom_choice(), ZoomChoice::Fullscreen);
    let panel = ConfigPanel::new();
    assert!(panel.blank_disk_name.is_empty());
    assert!(!panel.blank_disk_drive_b);
}
