use openlogi_gui::settings_pages::{
    FOLLOW_SYSTEM, LanguageOption, OptionTitle, PermissionStatus, accessibility_status,
    language_from_selection, language_options, selected_language_index, status_badge,
};
use openlogi_gui::theme::{STATUS_CONNECTED, STATUS_CONNECTING, STATUS_OFFLINE};

const SUPPORTED: &[(&str, &str)] = &[("en", "English"), ("zh-CN", "简体中文"), ("de", "Deutsch")];

#[test]
fn options_start_with_follow_system() {
    let opts = language_options(SUPPORTED);
    assert_eq!(opts.len(), 4);
    assert_eq!(opts[0].value, "");
    assert!(opts[0].localize_label);
    assert_eq!(opts[0].title(), OptionTitle::Localized(FOLLOW_SYSTEM));
    assert_eq!(opts[2].value, "zh-CN");
    assert_eq!(opts[2].label, "简体中文");
    assert!(!opts[2].localize_label);
    assert_eq!(opts[2].title(), OptionTitle::Plain("简体中文"));
    assert_eq!(*opts[3].value(), "de");
}

#[test]
fn selected_index_follows_setting() {
    let opts = language_options(SUPPORTED);
    assert_eq!(selected_language_index(None, &opts), 0);
    assert_eq!(selected_language_index(Some("de"), &opts), 3);
    assert_eq!(selected_language_index(Some("en"), &opts), 1);
    assert_eq!(selected_language_index(Some("fr"), &opts), 0);
    assert_eq!(selected_language_index(Some("d"), &opts), 0);
}

#[test]
fn selected_index_takes_first_match() {
    let opts = vec![
        LanguageOption { label: "a", value: "x", localize_label: false },
        LanguageOption { label: "b", value: "y", localize_label: false },
        LanguageOption { label: "c", value: "y", localize_label: false },
    ];
    assert_eq!(selected_language_index(Some("y"), &opts), 1);
    assert_eq!(selected_language_index(None, &opts), 0);
}

#[test]
fn language_from_selection_empty_means_follow_system() {
    assert_eq!(language_from_selection(None), None);
    assert_eq!(language_from_selection(Some("")), None);
    assert_eq!(language_from_selection(Some("de")), Some("de".to_string()));
}

#[test]
fn language_round_trip_on_examples() {
    let opts = language_options(SUPPORTED);
    for current in [None, Some("en"), Some("zh-CN"), Some("de")] {
        let row = selected_language_index(current, &opts);
        let stored = language_from_selection(Some(opts[row].value));
        assert_eq!(stored.as_deref(), current);
    }
}

#[test]
fn permission_badges() {
    assert_eq!(status_badge(PermissionStatus::Granted), ("Granted", STATUS_CONNECTED));
    assert_eq!(status_badge(PermissionStatus::Denied), ("Not granted", STATUS_CONNECTING));
    assert_eq!(status_badge(PermissionStatus::Unknown), ("Unknown", STATUS_OFFLINE));
    assert_eq!(accessibility_status(true), PermissionStatus::Granted);
    assert_eq!(accessibility_status(false), PermissionStatus::Denied);
}

use openlogi_gui::settings_pages::{GeneralSettings, GeneralSwitch, Permission, general_rows, permission_rows};

#[test]
fn general_rows_follow_settings() {
    let s = GeneralSettings { launch_at_login: true, check_for_updates: false, show_in_menu_bar: true };
    let rows = general_rows(Some(s), true);
    assert_eq!(rows.len(), 3);
    assert_eq!(rows[0].switch, GeneralSwitch::LaunchAtLogin);
    assert!(rows[0].checked);
    assert_eq!(rows[1].id, "settings-check-updates");
    assert!(!rows[1].checked);
    assert_eq!(rows[2].switch, GeneralSwitch::ShowInMenuBar);
    assert!(rows[2].checked);
    let rows = general_rows(None, false);
    assert_eq!(rows.len(), 2);
    assert!(rows.iter().all(|r| !r.checked));
}

#[test]
fn permission_rows_in_order() {
    let rows = permission_rows(false, PermissionStatus::Granted, PermissionStatus::Unknown);
    assert_eq!(rows.len(), 3);
    assert_eq!(rows[0].permission, Permission::Accessibility);
    assert_eq!(rows[0].status, PermissionStatus::Denied);
    assert_eq!(rows[0].id, "main-perm-accessibility");
    assert_eq!(rows[1].permission, Permission::InputMonitoring);
    assert_eq!(rows[1].status, PermissionStatus::Granted);
    assert_eq!(rows[2].permission, Permission::Bluetooth);
    assert_eq!(rows[2].status, PermissionStatus::Unknown);
    assert_eq!(permission_rows(true, PermissionStatus::Denied, PermissionStatus::Denied)[0].status, PermissionStatus::Granted);
}

use openlogi_gui::settings_pages::{SettingsSection, settings_page_header};

#[test]
fn settings_page_headings() {
    assert_eq!(
        settings_page_header(SettingsSection::General),
        ("General", "Basic OpenLogi behavior and startup preferences.")
    );
    assert_eq!(
        settings_page_header(SettingsSection::Permissions),
        ("Permissions", "macOS privacy permissions used by OpenLogi.")
    );
    assert_eq!(settings_page_header(SettingsSection::Language), ("Language", "Choose the interface language."));
}
