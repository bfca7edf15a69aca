use typr::overlay::{overlay_base_size, overlay_layout, overlay_min_size, OverlayLayout, OverlaySize};

#[test]
fn layouts_are_parsed_by_name() {
    assert_eq!(overlay_layout("parked"), Ok(OverlayLayout::Parked));
    assert_eq!(overlay_layout("menu"), Ok(OverlayLayout::Menu));
    assert_eq!(overlay_layout("status"), Ok(OverlayLayout::Status));
    assert_eq!(overlay_layout("huge"), Err("Unknown overlay layout: huge".to_string()));
}

#[test]
fn base_sizes_of_the_layouts() {
    assert_eq!(overlay_base_size(OverlayLayout::Parked), OverlaySize { width: 120, height: 44 });
    assert_eq!(overlay_base_size(OverlayLayout::Dock), OverlaySize { width: 460, height: 86 });
    assert_eq!(overlay_base_size(OverlayLayout::Label), OverlaySize { width: 460, height: 144 });
    assert_eq!(overlay_base_size(OverlayLayout::Menu), OverlaySize { width: 460, height: 420 });
    assert_eq!(overlay_base_size(OverlayLayout::Recording), OverlaySize { width: 440, height: 92 });
    assert_eq!(overlay_base_size(OverlayLayout::Status), OverlaySize { width: 360, height: 76 });
}

#[test]
fn min_sizes_fall_back_to_the_status_size() {
    assert_eq!(overlay_min_size("parked"), OverlaySize { width: 82, height: 34 });
    assert_eq!(overlay_min_size("recording"), OverlaySize { width: 320, height: 70 });
    assert_eq!(overlay_min_size("status"), OverlaySize { width: 280, height: 58 });
    assert_eq!(overlay_min_size("unknown"), OverlaySize { width: 280, height: 58 });
}
