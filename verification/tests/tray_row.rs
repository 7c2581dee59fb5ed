use openlogi_gui::device::DeviceKind;
use openlogi_gui::tray_row::{BatteryColor, DonutRegistry, battery_color, device_row_content, device_symbol};

#[test]
fn symbols_by_kind() {
    assert_eq!(device_symbol(DeviceKind::Keyboard), "keyboard");
    assert_eq!(device_symbol(DeviceKind::Numpad), "keyboard");
    assert_eq!(device_symbol(DeviceKind::Touchpad), "computermouse");
    assert_eq!(device_symbol(DeviceKind::Headset), "headphones");
    assert_eq!(device_symbol(DeviceKind::Joystick), "gamecontroller");
    assert_eq!(device_symbol(DeviceKind::Presenter), "computermouse");
    assert_eq!(device_symbol(DeviceKind::Unknown), "computermouse");
}

#[test]
fn battery_color_thresholds() {
    assert_eq!(battery_color(0), BatteryColor::Red);
    assert_eq!(battery_color(20), BatteryColor::Red);
    assert_eq!(battery_color(21), BatteryColor::Yellow);
    assert_eq!(battery_color(50), BatteryColor::Yellow);
    assert_eq!(battery_color(51), BatteryColor::Green);
    assert_eq!(battery_color(100), BatteryColor::Green);
    let rank = |c| match c {
        BatteryColor::Red => 0,
        BatteryColor::Yellow => 1,
        BatteryColor::Green => 2,
    };
    for p in 0..=254u8 {
        assert!(rank(battery_color(p)) <= rank(battery_color(p + 1)));
    }
}

#[test]
fn row_content_with_and_without_battery() {
    let c = device_row_content("MX Keys", DeviceKind::Keyboard, Some(7));
    assert_eq!(c.symbol, "keyboard");
    assert_eq!(c.name, "MX Keys");
    assert_eq!(c.battery_text.as_deref(), Some("7%"));
    assert_eq!(c.donut_percent, Some(7));
    let c = device_row_content("Lift", DeviceKind::Mouse, None);
    assert_eq!(c.battery_text, None);
    assert_eq!(c.donut_percent, None);
}

#[test]
fn donut_reads_what_was_written() {
    let mut reg = DonutRegistry::new();
    assert_eq!(reg.percent_for(0x1000), None);
    reg.set_percent(0x1000, Some(42));
    reg.set_percent(0x2000, Some(90));
    assert_eq!(reg.percent_for(0x1000), Some(42));
    reg.set_percent(0x1000, None);
    assert_eq!(reg.percent_for(0x1000), None);
    assert_eq!(reg.percent_for(0x2000), Some(90));
}
