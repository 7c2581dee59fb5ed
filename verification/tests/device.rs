use openlogi_gui::device::{
    BatteryGlyph, BatteryInfo, BatteryLevel, BatteryStatus, DescriptionValue, DetailTab, DeviceKind,
    DeviceRecord, RouteKind, active_tab_index, battery_glyph, battery_icon, battery_percentage_text,
    card_subtitle, description_entries, detail_tabs, empty_state_title, file_url, gallery_active_index,
    is_configurable_pointer, kind_label, reconcile_active_tab, route_label, status_label,
    supports_lighting, tab_after_navigation, tab_at, valid_tab,
};
use openlogi_gui::nav::SidebarNav;
use openlogi_gui::theme::{STATUS_CONNECTED, STATUS_OFFLINE};

fn record(kind: DeviceKind) -> DeviceRecord {
    DeviceRecord {
        kind,
        display_name: "MX Master 3S".to_string(),
        online: true,
        battery: None,
        slot: 2,
        config_key: "mx-master-3s".to_string(),
        route: Some(RouteKind::Bolt),
        serial_number: None,
        hero_image_path: None,
    }
}

const ALL_KINDS: [DeviceKind; 12] = [
    DeviceKind::Mouse,
    DeviceKind::Keyboard,
    DeviceKind::Numpad,
    DeviceKind::Presenter,
    DeviceKind::Remote,
    DeviceKind::Trackball,
    DeviceKind::Touchpad,
    DeviceKind::Tablet,
    DeviceKind::Gamepad,
    DeviceKind::Joystick,
    DeviceKind::Headset,
    DeviceKind::Unknown,
];

#[test]
fn tabs_by_kind() {
    assert_eq!(
        DetailTab::tabs_for(&record(DeviceKind::Mouse)),
        vec![DetailTab::Buttons, DetailTab::Pointer, DetailTab::Info]
    );
    assert_eq!(DetailTab::tabs_for(&record(DeviceKind::Keyboard)), vec![DetailTab::Info]);
    let mut wired = record(DeviceKind::Keyboard);
    wired.route = Some(RouteKind::Usb);
    assert_eq!(DetailTab::tabs_for(&wired), vec![DetailTab::Lighting, DetailTab::Info]);
    wired.route = Some(RouteKind::Bluetooth);
    assert_eq!(DetailTab::tabs_for(&wired), vec![DetailTab::Info]);
    wired.route = None;
    assert_eq!(DetailTab::tabs_for(&wired), vec![DetailTab::Info]);
    let mut usb_mouse = record(DeviceKind::Mouse);
    usb_mouse.route = Some(RouteKind::Usb);
    assert!(!supports_lighting(&usb_mouse));
    assert_eq!(DetailTab::tabs_for(&record(DeviceKind::Headset)), vec![DetailTab::Info]);
    assert_eq!(
        DetailTab::tabs_for(&record(DeviceKind::Unknown)),
        vec![DetailTab::Buttons, DetailTab::Pointer, DetailTab::Info]
    );
}

#[test]
fn every_device_gets_the_info_tab_last() {
    for kind in ALL_KINDS {
        for route in [None, Some(RouteKind::Bolt), Some(RouteKind::Usb), Some(RouteKind::Bluetooth)] {
            let mut r = record(kind);
            r.route = route;
            let tabs = DetailTab::tabs_for(&r);
            assert!(!tabs.is_empty());
            assert_eq!(*tabs.last().unwrap(), DetailTab::Info);
            assert_eq!(DetailTab::default_for(&r), tabs[0]);
            assert_eq!(tabs.contains(&DetailTab::Buttons), is_configurable_pointer(kind));
            assert_eq!(tabs.contains(&DetailTab::Lighting), supports_lighting(&r));
        }
    }
}

#[test]
fn tab_labels() {
    assert_eq!(DetailTab::Buttons.label(), "Buttons");
    assert_eq!(DetailTab::Info.label(), "Info");
}

#[test]
fn reconcile_active_tab_drops_unavailable_tab() {
    let mut kb = record(DeviceKind::Keyboard);
    assert_eq!(reconcile_active_tab(SidebarNav::Device(0), Some(&kb), DetailTab::Pointer), DetailTab::Info);
    kb.route = Some(RouteKind::Usb);
    assert_eq!(reconcile_active_tab(SidebarNav::Device(0), Some(&kb), DetailTab::Pointer), DetailTab::Lighting);
    assert_eq!(reconcile_active_tab(SidebarNav::Device(0), Some(&kb), DetailTab::Info), DetailTab::Info);
    assert_eq!(reconcile_active_tab(SidebarNav::Devices, Some(&kb), DetailTab::Pointer), DetailTab::Pointer);
    assert_eq!(reconcile_active_tab(SidebarNav::Device(0), None, DetailTab::Pointer), DetailTab::Pointer);
    assert_eq!(valid_tab(&record(DeviceKind::Headset), DetailTab::Buttons), DetailTab::Info);
}

#[test]
fn valid_tab_is_stable() {
    for kind in ALL_KINDS {
        for tab in [DetailTab::Buttons, DetailTab::Pointer, DetailTab::Lighting, DetailTab::Info] {
            let r = record(kind);
            let once = valid_tab(&r, tab);
            assert!(DetailTab::tabs_for(&r).contains(&once));
            assert_eq!(valid_tab(&r, once), once);
        }
    }
}

#[test]
fn navigation_tab_and_tab_bar() {
    assert_eq!(tab_after_navigation(Some(&record(DeviceKind::Keyboard))), DetailTab::Info);
    let mut wired = record(DeviceKind::Keyboard);
    wired.route = Some(RouteKind::Usb);
    assert_eq!(tab_after_navigation(Some(&wired)), DetailTab::Lighting);
    assert_eq!(tab_after_navigation(None), DetailTab::Info);
    let tabs = detail_tabs(Some(&record(DeviceKind::Mouse)));
    assert_eq!(active_tab_index(&tabs, DetailTab::Pointer), 1);
    assert_eq!(active_tab_index(&tabs, DetailTab::Lighting), 0);
    assert_eq!(tab_at(&tabs, 1), DetailTab::Pointer);
    assert_eq!(tab_at(&tabs, 7), DetailTab::Info);
    assert_eq!(detail_tabs(None), vec![DetailTab::Info]);
}

#[test]
fn battery_glyphs() {
    let b = |status, level| BatteryInfo { percentage: 50, level, status };
    assert_eq!(battery_icon(&b(BatteryStatus::Charging, BatteryLevel::Low)), BatteryGlyph::Charging);
    assert_eq!(battery_icon(&b(BatteryStatus::ChargingSlow, BatteryLevel::Low)), BatteryGlyph::Charging);
    assert_eq!(battery_icon(&b(BatteryStatus::Full, BatteryLevel::Low)), BatteryGlyph::Full);
    assert_eq!(battery_icon(&b(BatteryStatus::Error, BatteryLevel::Full)), BatteryGlyph::Warning);
    assert_eq!(battery_icon(&b(BatteryStatus::Discharging, BatteryLevel::Critical)), BatteryGlyph::Warning);
    assert_eq!(battery_icon(&b(BatteryStatus::Discharging, BatteryLevel::Low)), BatteryGlyph::Low);
    assert_eq!(battery_icon(&b(BatteryStatus::Unknown, BatteryLevel::Good)), BatteryGlyph::Medium);
    assert_eq!(battery_icon(&b(BatteryStatus::Discharging, BatteryLevel::Full)), BatteryGlyph::Full);
    assert_eq!(battery_icon(&b(BatteryStatus::Unknown, BatteryLevel::Unknown)), BatteryGlyph::Plain);
    assert_eq!(battery_glyph(None), BatteryGlyph::Plain);
}

#[test]
fn battery_readout_and_status() {
    let b = BatteryInfo { percentage: 80, level: BatteryLevel::Good, status: BatteryStatus::Discharging };
    assert_eq!(battery_percentage_text(Some(&b)), "80%");
    let b0 = BatteryInfo { percentage: 0, level: BatteryLevel::Critical, status: BatteryStatus::Discharging };
    assert_eq!(battery_percentage_text(Some(&b0)), "0%");
    assert_eq!(battery_percentage_text(None), "—");
    assert_eq!(status_label(true), ("Connected", STATUS_CONNECTED));
    assert_eq!(status_label(false), ("Offline", STATUS_OFFLINE));
}

#[test]
fn kind_and_route_labels() {
    assert_eq!(kind_label(DeviceKind::Unknown), "Device");
    assert_eq!(kind_label(DeviceKind::Trackball), "Trackball");
    assert_eq!(route_label(Some(RouteKind::Bolt)), "Bolt receiver");
    assert_eq!(route_label(Some(RouteKind::Usb)), "Direct connection");
    assert_eq!(route_label(Some(RouteKind::Bluetooth)), "Direct connection");
    assert_eq!(route_label(None), "Unavailable");
}

#[test]
fn description_rows() {
    let mut r = record(DeviceKind::Mouse);
    let rows = description_entries(&r);
    assert_eq!(rows.len(), 3);
    assert_eq!(rows[0].label, "Connection");
    assert!(matches!(rows[0].value, DescriptionValue::Localized("Bolt receiver")));
    assert!(matches!(&rows[1].value, DescriptionValue::Text(t) if t == "2"));
    assert!(matches!(&rows[2].value, DescriptionValue::Text(t) if t == "mx-master-3s"));
    r.serial_number = Some("1234ABCD".to_string());
    r.slot = 17;
    let rows = description_entries(&r);
    assert_eq!(rows.len(), 4);
    assert_eq!(rows[3].label, "Serial");
    assert!(matches!(&rows[3].value, DescriptionValue::Text(t) if t == "1234ABCD"));
    assert!(matches!(&rows[1].value, DescriptionValue::Text(t) if t == "17"));
}

#[test]
fn gallery_index_clamps() {
    assert_eq!(gallery_active_index(1, 3), 1);
    assert_eq!(gallery_active_index(5, 3), 2);
    assert_eq!(gallery_active_index(0, 0), 0);
    assert_eq!(gallery_active_index(4, 0), 0);
}

#[test]
fn empty_state_titles_and_subtitle() {
    assert_eq!(empty_state_title(true), "Scanning for devices…");
    assert_eq!(empty_state_title(false), "No devices connected");
    assert_eq!(card_subtitle("Mouse", 1), "Mouse · slot 1");
    assert_eq!(card_subtitle("Keyboard", 255), "Keyboard · slot 255");
}

#[test]
fn file_url_escapes_spaces() {
    assert_eq!(
        file_url("/Users/me/Library/Application Support/openlogi"),
        "file:///Users/me/Library/Application%20Support/openlogi"
    );
    assert_eq!(file_url("/tmp/x"), "file:///tmp/x");
    assert_eq!(file_url(""), "file://");
    assert_eq!(file_url("  "), "file://%20%20");
    assert!(!file_url("/a b/c d ").contains(' '));
}

use openlogi_gui::device::{ConfigurationState, configuration_entries};

#[test]
fn configuration_rows() {
    let rows = configuration_entries(None);
    assert_eq!(rows.len(), 4);
    assert!(matches!(rows[0].value, DescriptionValue::Localized("Default profile")));
    assert!(matches!(&rows[3].value, DescriptionValue::Text(t) if t == "0"));
    let s = ConfigurationState {
        button_bindings: 12,
        gesture_bindings: 4,
        dpi_presets: 3,
        current_app_bundle: Some("com.apple.Safari".to_string()),
    };
    let rows = configuration_entries(Some(&s));
    assert_eq!(rows[1].label, "Button bindings");
    assert!(matches!(&rows[0].value, DescriptionValue::Text(t) if t == "com.apple.Safari"));
    assert!(matches!(&rows[1].value, DescriptionValue::Text(t) if t == "12"));
    assert!(matches!(&rows[2].value, DescriptionValue::Text(t) if t == "4"));
    assert!(matches!(&rows[3].value, DescriptionValue::Text(t) if t == "3"));
}

use openlogi_gui::device::{DeviceImage, device_image};

#[test]
fn device_photo_or_placeholder() {
    let mut r = record(DeviceKind::Mouse);
    assert_eq!(device_image(&r), DeviceImage::Placeholder);
    r.hero_image_path = Some("/assets/mx-master-3s/hero.png".to_string());
    assert_eq!(device_image(&r), DeviceImage::Photo("/assets/mx-master-3s/hero.png".to_string()));
}
