use openlogi_gui::nav::{
    MainPane, MainView, SectionTitles, SidebarNav, main_window_title, plan_main_view, reconcile_nav,
    section_title, section_window_title,
};
use openlogi_gui::settings_pages::SettingsSection;

fn titles() -> SectionTitles {
    SectionTitles {
        general: "General".to_string(),
        permissions: "Permissions".to_string(),
        language: "Language".to_string(),
    }
}

#[test]
fn settings_section_maps_settings_entries() {
    assert_eq!(SidebarNav::General.settings_section(), Some(SettingsSection::General));
    assert_eq!(SidebarNav::Permissions.settings_section(), Some(SettingsSection::Permissions));
    assert_eq!(SidebarNav::Language.settings_section(), Some(SettingsSection::Language));
    assert_eq!(SidebarNav::Devices.settings_section(), None);
    assert_eq!(SidebarNav::Device(3).settings_section(), None);
}

#[test]
fn reconcile_nav_falls_back_when_device_disappears() {
    assert_eq!(reconcile_nav(SidebarNav::Device(0), 0), SidebarNav::Devices);
    assert_eq!(reconcile_nav(SidebarNav::Device(2), 2), SidebarNav::Devices);
    assert_eq!(reconcile_nav(SidebarNav::Device(1), 2), SidebarNav::Device(1));
    assert_eq!(reconcile_nav(SidebarNav::General, 0), SidebarNav::General);
    assert_eq!(reconcile_nav(SidebarNav::Devices, 5), SidebarNav::Devices);
}

#[test]
fn reconcile_nav_is_idempotent_on_examples() {
    for count in 0..4usize {
        for nav in [SidebarNav::Device(0), SidebarNav::Device(2), SidebarNav::Language] {
            let once = reconcile_nav(nav, count);
            assert_eq!(reconcile_nav(once, count), once);
        }
    }
}

#[test]
fn plan_shows_gate_until_granted_or_dismissed() {
    let v = plan_main_view(false, false, SidebarNav::Device(9), 0, false);
    assert_eq!(v, MainView { nav: SidebarNav::Device(9), pane: MainPane::AccessibilityGate });
    let v = plan_main_view(false, true, SidebarNav::Devices, 1, false);
    assert_eq!(v.pane, MainPane::Gallery);
}

#[test]
fn plan_picks_pane_by_selection() {
    assert_eq!(plan_main_view(true, false, SidebarNav::Devices, 0, false).pane, MainPane::EmptyState);
    assert_eq!(plan_main_view(true, false, SidebarNav::Devices, 2, true).pane, MainPane::Gallery);
    assert_eq!(
        plan_main_view(true, false, SidebarNav::Permissions, 0, false).pane,
        MainPane::Settings(SettingsSection::Permissions)
    );
    assert_eq!(plan_main_view(true, false, SidebarNav::Device(1), 2, true).pane, MainPane::DeviceDetail);
    assert_eq!(plan_main_view(true, false, SidebarNav::Device(1), 2, false).pane, MainPane::EmptyState);
    let v = plan_main_view(true, false, SidebarNav::Device(4), 2, true);
    assert_eq!(v, MainView { nav: SidebarNav::Devices, pane: MainPane::Gallery });
}

#[test]
fn main_window_title_by_selection() {
    let t = titles();
    assert_eq!(main_window_title(SidebarNav::Devices, &t, Some("MX Master 3S")), "OpenLogi");
    assert_eq!(main_window_title(SidebarNav::Language, &t, None), "OpenLogi — Language");
    assert_eq!(main_window_title(SidebarNav::Device(0), &t, Some("MX Keys")), "OpenLogi — MX Keys");
    assert_eq!(main_window_title(SidebarNav::Device(0), &t, None), "OpenLogi");
}

#[test]
fn section_window_title_only_for_settings() {
    let t = titles();
    assert_eq!(section_window_title(SidebarNav::General, &t), Some("OpenLogi — General".to_string()));
    assert_eq!(section_window_title(SidebarNav::Devices, &t), None);
    assert_eq!(section_title(SettingsSection::Permissions, &t), "Permissions");
}

use openlogi_gui::nav::{FooterStatus, SidebarIcon, SidebarItem, footer_accessibility, sidebar_items};
use openlogi_gui::theme::{ACCENT_BLUE, STATUS_CONNECTED, STATUS_CONNECTING};

fn active_entries(nav: SidebarNav) -> Vec<SidebarNav> {
    sidebar_items(nav)
        .into_iter()
        .filter_map(|item| match item {
            SidebarItem::Entry { nav, active: true, .. } => Some(nav),
            _ => None,
        })
        .collect()
}

#[test]
fn sidebar_layout() {
    let items = sidebar_items(SidebarNav::Devices);
    assert_eq!(items.len(), 8);
    assert_eq!(
        items[0],
        SidebarItem::Entry {
            nav: SidebarNav::Devices,
            label: "Devices",
            icon: SidebarIcon::Cpu,
            color: ACCENT_BLUE,
            active: true,
        }
    );
    assert_eq!(items[1], SidebarItem::Spacer(16));
    assert_eq!(items[2], SidebarItem::Label("Settings"));
    assert!(matches!(items[7], SidebarItem::Entry { nav: SidebarNav::Language, icon: SidebarIcon::Globe, .. }));
}

#[test]
fn sidebar_marks_exactly_the_selection() {
    assert_eq!(active_entries(SidebarNav::Devices), vec![SidebarNav::Devices]);
    assert_eq!(active_entries(SidebarNav::Permissions), vec![SidebarNav::Permissions]);
    assert_eq!(active_entries(SidebarNav::Device(1)), vec![]);
}

#[test]
fn footer_status() {
    assert_eq!(
        footer_accessibility(true),
        FooterStatus { label: "Accessibility granted", color: STATUS_CONNECTED, clickable: false }
    );
    let s = footer_accessibility(false);
    assert_eq!(s.color, STATUS_CONNECTING);
    assert!(s.clickable);
}

use openlogi_gui::nav::window_title_for;

#[test]
fn gate_keeps_bare_product_name_as_title() {
    let t = titles();
    let gate = plan_main_view(false, false, SidebarNav::Language, 2, true);
    assert_eq!(gate.pane, MainPane::AccessibilityGate);
    assert_eq!(window_title_for(&gate, &t, Some("MX Keys")), "OpenLogi");
    let gate_on_device = plan_main_view(false, false, SidebarNav::Device(0), 1, true);
    assert_eq!(window_title_for(&gate_on_device, &t, Some("MX Keys")), "OpenLogi");
    let page = plan_main_view(false, true, SidebarNav::Language, 2, true);
    assert_eq!(window_title_for(&page, &t, None), "OpenLogi — Language");
    let device = plan_main_view(true, false, SidebarNav::Device(0), 1, true);
    assert_eq!(window_title_for(&device, &t, Some("MX Keys")), "OpenLogi — MX Keys");
}

use openlogi_gui::nav::{GateAction, dismissed_after, gate_texts};

#[test]
fn accessibility_gate_texts_and_actions() {
    let t = gate_texts();
    assert_eq!(t.title, "Accessibility permission required");
    assert!(t.body.starts_with("OpenLogi captures mouse buttons (Back / Forward / gesture button) through"));
    assert!(t.body.ends_with("DPI, SmartShift — are unaffected."));
    assert_eq!(t.open_settings, "Open System Settings to grant access");
    assert_eq!(t.hint, "Takes effect automatically once granted — no restart needed.");
    assert_eq!(t.check_again, "Check again");
    assert_eq!(t.skip, "Not now (use DPI and other features only)");
    assert!(dismissed_after(GateAction::Skip, false));
    assert!(!dismissed_after(GateAction::CheckAgain, false));
    assert!(!dismissed_after(GateAction::OpenSettings, false));
    assert!(dismissed_after(GateAction::CheckAgain, true));
    let d = dismissed_after(GateAction::Skip, false);
    assert_ne!(plan_main_view(false, d, SidebarNav::Devices, 0, false).pane, MainPane::AccessibilityGate);
}
