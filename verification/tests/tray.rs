use openlogi_gui::branding::BuildInfo;
use openlogi_gui::device::DeviceKind;
use openlogi_gui::tray::{
    ActivationPolicy, MAX_DEVICE_ROWS, PostOutcome, RowSlot, TrayDeviceRow, TrayEvent, TrayState,
    device_row_slots, hide_from_dock, initial_row_slots, install, post, reconcile_dock_visibility,
    refresh_labels, request_refresh, set_device_rows, set_visible, show_in_dock, tray_open_label,
    tray_quit_label, uninstall, TrayLabels,
};

fn rows(n: usize) -> Vec<TrayDeviceRow> {
    (0..n)
        .map(|i| TrayDeviceRow { name: format!("dev{i}"), kind: DeviceKind::Mouse, battery_percent: Some(50) })
        .collect()
}

fn release() -> BuildInfo {
    BuildInfo { bundle_identifier: None, debug_assertions: false }
}

#[test]
fn empty_list_shows_placeholder_only() {
    let slots = device_row_slots(&rows(0));
    assert_eq!(slots.len(), MAX_DEVICE_ROWS);
    assert_eq!(slots[0], RowSlot::Placeholder);
    assert!(slots[1..].iter().all(|s| *s == RowSlot::Hidden));
    assert_eq!(initial_row_slots(), slots);
}

#[test]
fn one_row_per_device_spares_hidden() {
    let slots = device_row_slots(&rows(3));
    assert_eq!(
        slots,
        vec![
            RowSlot::Device(0),
            RowSlot::Device(1),
            RowSlot::Device(2),
            RowSlot::Hidden,
            RowSlot::Hidden,
            RowSlot::Hidden,
            RowSlot::Hidden,
            RowSlot::Hidden,
        ]
    );
}

#[test]
fn devices_past_capacity_are_not_shown() {
    let slots = device_row_slots(&rows(11));
    assert_eq!(slots.len(), 8);
    for (i, s) in slots.iter().enumerate() {
        assert_eq!(*s, RowSlot::Device(i));
    }
}

#[test]
fn install_then_uninstall() {
    let mut s = TrayState::new();
    assert!(!uninstall(&mut s));
    assert!(install(&mut s));
    assert!(!install(&mut s));
    assert_eq!(s, TrayState { installed: true, resources: true });
    assert!(uninstall(&mut s));
    assert!(!uninstall(&mut s));
    assert_eq!(s, TrayState { installed: false, resources: true });
    assert!(install(&mut s));
}

#[test]
fn operations_need_the_menu() {
    let s = TrayState::new();
    assert_eq!(set_visible(&s, true), None);
    assert!(set_device_rows(&s, &rows(2)).is_none());
    assert!(refresh_labels(&s, &TrayLabels::english(), &release()).is_none());
    let mut s = s;
    install(&mut s);
    assert_eq!(set_visible(&s, false), Some(false));
    assert_eq!(set_device_rows(&s, &rows(2)).unwrap(), device_row_slots(&rows(2)));
    let (open, quit) = refresh_labels(&s, &TrayLabels::english(), &release()).unwrap();
    assert_eq!(open, "Open OpenLogi");
    assert_eq!(quit, "Quit OpenLogi");
}

#[test]
fn menu_labels() {
    let dev = BuildInfo { bundle_identifier: None, debug_assertions: true };
    let en = TrayLabels::english();
    assert_eq!(tray_open_label(&en, &dev), "Open OpenLogi Dev");
    assert_eq!(tray_quit_label(&en, &release()), "Quit OpenLogi");
    let de = TrayLabels { open_prefix: "Öffne ".to_string(), quit_prefix: "Beende ".to_string() };
    assert_eq!(tray_open_label(&de, &release()), "Öffne OpenLogi");
    assert_eq!(tray_quit_label(&de, &dev), "Beende OpenLogi Dev");
}

#[test]
fn dock_visibility() {
    assert_eq!(show_in_dock(), ActivationPolicy::Regular);
    assert_eq!(hide_from_dock(), ActivationPolicy::Accessory);
    assert_eq!(reconcile_dock_visibility(false, 0, true, true), None);
    assert_eq!(reconcile_dock_visibility(true, 0, true, true), Some(ActivationPolicy::Accessory));
    assert_eq!(reconcile_dock_visibility(true, 1, true, true), Some(ActivationPolicy::Regular));
    assert_eq!(reconcile_dock_visibility(true, 0, false, true), Some(ActivationPolicy::Regular));
    assert_eq!(reconcile_dock_visibility(true, 0, true, false), Some(ActivationPolicy::Regular));
}

#[test]
fn post_delivers_and_reports_drops() {
    assert_eq!(post(None, TrayEvent::Open), PostOutcome::NoChannel);
    let (tx, mut rx) = tokio::sync::mpsc::unbounded_channel();
    assert_eq!(post(Some(&tx), TrayEvent::Quit), PostOutcome::Delivered);
    assert_eq!(request_refresh(Some(&tx)), PostOutcome::Delivered);
    assert_eq!(rx.try_recv().unwrap(), TrayEvent::Quit);
    assert_eq!(rx.try_recv().unwrap(), TrayEvent::Refresh);
    drop(rx);
    assert_eq!(post(Some(&tx), TrayEvent::Open), PostOutcome::Dropped(TrayEvent::Open));
    assert_eq!(request_refresh(Some(&tx)), PostOutcome::Dropped(TrayEvent::Refresh));
    assert_eq!(request_refresh(None), PostOutcome::NoChannel);
}
