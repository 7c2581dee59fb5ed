//! Main-window sidebar selection (devices + settings sections) and the
//! decisions the main window takes from it: which pane to show, and its title.

use vstd::prelude::*;
use vstd::string::StringExecFns;
use crate::branding::{TITLE_SEPARATOR, titled};
use crate::settings_pages::SettingsSection;
use crate::theme::{ACCENT_BLUE, STATUS_CONNECTED, STATUS_CONNECTING};

verus! {

/// What the main window's detail pane is showing.
#[derive(Debug, Clone, Copy, PartialEq, Eq, Structural)]
pub enum SidebarNav {
    Devices,
    Device(usize),
    General,
    Permissions,
    Language,
}

pub open spec fn spec_settings_section(nav: SidebarNav) -> Option<SettingsSection> {
    match nav {
        SidebarNav::General => Some(SettingsSection::General),
        SidebarNav::Permissions => Some(SettingsSection::Permissions),
        SidebarNav::Language => Some(SettingsSection::Language),
        SidebarNav::Devices | SidebarNav::Device(_) => None,
    }
}

/// The sidebar entry that shows a settings section.
pub open spec fn nav_for_section(section: SettingsSection) -> SidebarNav {
    match section {
        SettingsSection::General => SidebarNav::General,
        SettingsSection::Permissions => SidebarNav::Permissions,
        SettingsSection::Language => SidebarNav::Language,
    }
}

impl SidebarNav {
    /// The settings page this entry shows, if it is a settings entry.
    pub fn settings_section(self) -> (section: Option<SettingsSection>)
        ensures
            section == spec_settings_section(self),
    {
        match self {
            Self::General => Some(SettingsSection::General),
            Self::Permissions => Some(SettingsSection::Permissions),
            Self::Language => Some(SettingsSection::Language),
            Self::Devices | Self::Device(_) => None,
        }
    }
}

/// Each settings section has exactly one sidebar entry, and that entry shows it.
pub proof fn lemma_settings_section_round_trip(nav: SidebarNav, section: SettingsSection)
    ensures
        spec_settings_section(nav_for_section(section)) == Some(section),
        spec_settings_section(nav) == Some(section) ==> nav == nav_for_section(section),
{
}

pub open spec fn spec_reconcile_nav(nav: SidebarNav, device_count: nat) -> SidebarNav {
    match nav {
        SidebarNav::Device(idx) => if idx >= device_count { SidebarNav::Devices } else { nav },
        _ => nav,
    }
}

/// Fall back to the device overview when the selected device has gone away
/// (the list shrank below it or emptied); any other selection stays.
pub fn reconcile_nav(nav: SidebarNav, device_count: usize) -> (r: SidebarNav)
    ensures
        r == spec_reconcile_nav(nav, device_count as nat),
{
    if let SidebarNav::Device(idx) = nav {
        if device_count == 0 {
            return SidebarNav::Devices;
        } else if idx >= device_count {
            return SidebarNav::Devices;
        }
    }
    nav
}

/// After reconciling, a device selection always names a device in the list.
pub proof fn lemma_reconciled_nav_in_range(nav: SidebarNav, device_count: nat)
    ensures
        spec_reconcile_nav(nav, device_count) matches SidebarNav::Device(i) ==> i < device_count,
        spec_reconcile_nav(spec_reconcile_nav(nav, device_count), device_count)
            == spec_reconcile_nav(nav, device_count),
{
}

/// The body of the main window.
#[derive(Debug, Clone, Copy, PartialEq, Eq, Structural)]
pub enum MainPane {
    /// The Accessibility-permission gate, shown before anything else.
    AccessibilityGate,
    /// One embedded settings page.
    Settings(SettingsSection),
    /// The grid of device cards.
    Gallery,
    /// The detail screen of the current device.
    DeviceDetail,
    /// The "no devices" / "scanning" placeholder.
    EmptyState,
}

/// What the main window shows, and the selection it keeps.
#[derive(Debug, Clone, Copy, PartialEq, Eq, Structural)]
pub struct MainView {
    pub nav: SidebarNav,
    pub pane: MainPane,
}

pub open spec fn spec_plan_main_view(
    granted: bool,
    dismissed: bool,
    nav: SidebarNav,
    device_count: nat,
    has_current_record: bool,
) -> MainView {
    if !granted && !dismissed {
        MainView { nav, pane: MainPane::AccessibilityGate }
    } else {
        let nav = spec_reconcile_nav(nav, device_count);
        let pane = match spec_settings_section(nav) {
            Some(section) => MainPane::Settings(section),
            None => match nav {
                SidebarNav::Device(_) => if device_count > 0 && has_current_record {
                    MainPane::DeviceDetail
                } else {
                    MainPane::EmptyState
                },
                _ => if device_count > 0 { MainPane::Gallery } else { MainPane::EmptyState },
            },
        };
        MainView { nav, pane }
    }
}

/// The main window's render decision: the Accessibility gate while the
/// permission is missing and the user has not skipped it; otherwise the
/// selection is reconciled with the device list, a settings entry shows its
/// page, the overview shows the gallery (or the placeholder when no device is
/// connected) and a device entry shows its detail screen when there is a
/// current device record.
pub fn plan_main_view(
    granted: bool,
    dismissed: bool,
    nav: SidebarNav,
    device_count: usize,
    has_current_record: bool,
) -> (view: MainView)
    ensures
        view == spec_plan_main_view(granted, dismissed, nav, device_count as nat, has_current_record),
{
    if !granted && !dismissed {
        return MainView { nav, pane: MainPane::AccessibilityGate };
    }
    let has_device = device_count > 0;
    let nav = reconcile_nav(nav, device_count);
    let pane = if let Some(section) = nav.settings_section() {
        MainPane::Settings(section)
    } else {
        match nav {
            SidebarNav::Devices => if has_device { MainPane::Gallery } else { MainPane::EmptyState },
            SidebarNav::Device(_) => if has_device && has_current_record {
                MainPane::DeviceDetail
            } else {
                MainPane::EmptyState
            },
            SidebarNav::General | SidebarNav::Permissions | SidebarNav::Language => MainPane::EmptyState,
        }
    };
    MainView { nav, pane }
}

/// The texts of the Accessibility gate (message keys), top to bottom.
#[derive(Debug, Clone, Copy, PartialEq, Eq)]
pub struct GateTexts {
    pub title: &'static str,
    pub body: &'static str,
    pub open_settings: &'static str,
    pub hint: &'static str,
    pub check_again: &'static str,
    pub skip: &'static str,
}

pub open spec fn spec_gate_texts() -> GateTexts {
    GateTexts {
        title: "Accessibility permission required",
        body: "OpenLogi captures mouse buttons (Back / Forward / gesture button) through the system Accessibility permission and runs the actions you bind. Features that talk to the device directly — DPI, SmartShift — are unaffected.",
        open_settings: "Open System Settings to grant access",
        hint: "Takes effect automatically once granted — no restart needed.",
        check_again: "Check again",
        skip: "Not now (use DPI and other features only)",
    }
}

/// What the Accessibility gate says: why the permission is needed, the
/// button that opens System Settings, and the re-check and skip links.
pub fn gate_texts() -> (texts: GateTexts)
    ensures
        texts == spec_gate_texts(),
{
    GateTexts {
        title: "Accessibility permission required",
        body: "OpenLogi captures mouse buttons (Back / Forward / gesture button) through the system Accessibility permission and runs the actions you bind. Features that talk to the device directly — DPI, SmartShift — are unaffected.",
        open_settings: "Open System Settings to grant access",
        hint: "Takes effect automatically once granted — no restart needed.",
        check_again: "Check again",
        skip: "Not now (use DPI and other features only)",
    }
}

/// A click on the Accessibility gate.
#[derive(Debug, Clone, Copy, PartialEq, Eq, Structural)]
pub enum GateAction {
    /// Open the Accessibility pane of System Settings.
    OpenSettings,
    /// Query the permission again and redraw.
    CheckAgain,
    /// "Not now": carry on without the permission.
    Skip,
}

pub open spec fn spec_dismissed_after(action: GateAction, dismissed: bool) -> bool {
    dismissed || action == GateAction::Skip
}

/// Whether the permission prompt stays dismissed after `action`: "Not now"
/// dismisses it for good, the other two leave the flag as it was.
pub fn dismissed_after(action: GateAction, dismissed: bool) -> (r: bool)
    ensures
        r == spec_dismissed_after(action, dismissed),
{
    match action {
        GateAction::Skip => true,
        _ => dismissed,
    }
}

/// Once dismissed with "Not now", the permission prompt never comes back,
/// whatever the permission and the selection; before that it shows exactly
/// while the permission is missing.
pub proof fn lemma_skip_leaves_gate(
    granted: bool,
    dismissed: bool,
    action: GateAction,
    nav: SidebarNav,
    device_count: nat,
    has_current_record: bool,
)
    ensures
        action == GateAction::Skip ==> spec_plan_main_view(
            granted,
            spec_dismissed_after(action, dismissed),
            nav,
            device_count,
            has_current_record,
        ).pane != MainPane::AccessibilityGate,
        (spec_plan_main_view(granted, false, nav, device_count, has_current_record).pane
            == MainPane::AccessibilityGate) <==> !granted,
{
}

/// The device detail screen is only ever planned for a device that exists.
pub proof fn lemma_detail_only_for_listed_device(
    granted: bool,
    dismissed: bool,
    nav: SidebarNav,
    device_count: nat,
    has_current_record: bool,
)
    ensures
        spec_plan_main_view(granted, dismissed, nav, device_count, has_current_record).pane
            == MainPane::DeviceDetail ==> ({
            &&& has_current_record
            &&& spec_plan_main_view(granted, dismissed, nav, device_count, has_current_record).nav
                matches SidebarNav::Device(i) && i < device_count
        }),
{
}

/// Localized titles of the settings sections, supplied by the caller.
pub struct SectionTitles {
    pub general: String,
    pub permissions: String,
    pub language: String,
}

pub open spec fn spec_section_title(section: SettingsSection, titles: &SectionTitles) -> Seq<char> {
    match section {
        SettingsSection::General => titles.general@,
        SettingsSection::Permissions => titles.permissions@,
        SettingsSection::Language => titles.language@,
    }
}

/// The localized title of a settings section.
pub fn section_title(section: SettingsSection, titles: &SectionTitles) -> (title: String)
    ensures
        title@ == spec_section_title(section, titles),
{
    match section {
        SettingsSection::General => titles.general.clone(),
        SettingsSection::Permissions => titles.permissions.clone(),
        SettingsSection::Language => titles.language.clone(),
    }
}

/// The fixed product name used in the main window title.
pub const MAIN_TITLE: &'static str = "OpenLogi";

pub open spec fn spec_main_window_title(
    nav: SidebarNav,
    titles: &SectionTitles,
    current_record_name: Option<Seq<char>>,
) -> Seq<char> {
    match nav {
        SidebarNav::Devices => MAIN_TITLE@,
        _ => match spec_settings_section(nav) {
            Some(section) => titled(MAIN_TITLE@, Some(spec_section_title(section, titles))),
            None => titled(MAIN_TITLE@, current_record_name),
        },
    }
}

/// Main window title: `OpenLogi` on the overview, `OpenLogi — <section>` on a
/// settings page, and `OpenLogi — <device>` on a device (plain `OpenLogi` when
/// there is no current device record).
pub fn main_window_title(
    nav: SidebarNav,
    titles: &SectionTitles,
    current_record_name: Option<&str>,
) -> (title: String)
    ensures
        title@ == spec_main_window_title(
            nav,
            titles,
            match current_record_name { Some(n) => Some(n@), None => None },
        ),
{
    if let SidebarNav::Devices = nav {
        return String::from_str(MAIN_TITLE);
    }
    if let Some(section) = nav.settings_section() {
        let t = section_title(section, titles);
        return String::from_str(MAIN_TITLE).concat(TITLE_SEPARATOR).concat(t.as_str());
    }
    match current_record_name {
        Some(name) => String::from_str(MAIN_TITLE).concat(TITLE_SEPARATOR).concat(name),
        None => String::from_str(MAIN_TITLE),
    }
}

pub open spec fn spec_window_title_for(
    view: MainView,
    titles: &SectionTitles,
    current_record_name: Option<Seq<char>>,
) -> Seq<char> {
    if view.pane is AccessibilityGate {
        MAIN_TITLE@
    } else {
        spec_main_window_title(view.nav, titles, current_record_name)
    }
}

/// The title the main window takes for a planned `view`: the bare product
/// name while the Accessibility gate shows, otherwise the title of the
/// reconciled selection.
pub fn window_title_for(
    view: &MainView,
    titles: &SectionTitles,
    current_record_name: Option<&str>,
) -> (title: String)
    ensures
        title@ == spec_window_title_for(
            *view,
            titles,
            match current_record_name { Some(n) => Some(n@), None => None },
        ),
{
    match view.pane {
        MainPane::AccessibilityGate => String::from_str(MAIN_TITLE),
        _ => main_window_title(view.nav, titles, current_record_name),
    }
}

/// While the Accessibility gate shows, the window carries the bare product
/// name, whatever the selection and the device list are.
pub proof fn lemma_gate_window_title(
    nav: SidebarNav,
    device_count: nat,
    has_current_record: bool,
    titles: &SectionTitles,
    current_record_name: Option<Seq<char>>,
)
    ensures
        spec_window_title_for(
            spec_plan_main_view(false, false, nav, device_count, has_current_record),
            titles,
            current_record_name,
        ) == MAIN_TITLE@,
{
}

/// Title set on the focused main window when `open_section` navigates to
/// `nav`: `OpenLogi — <section>` for a settings entry, none otherwise.
pub fn section_window_title(nav: SidebarNav, titles: &SectionTitles) -> (title: Option<String>)
    ensures
        match title {
            Some(t) => spec_settings_section(nav) matches Some(s)
                && t@ == titled(MAIN_TITLE@, Some(spec_section_title(s, titles))),
            None => spec_settings_section(nav) is None,
        },
{
    match nav.settings_section() {
        Some(section) => {
            let t = section_title(section, titles);
            Some(String::from_str(MAIN_TITLE).concat(TITLE_SEPARATOR).concat(t.as_str()))
        },
        None => None,
    }
}


/// Icon of a sidebar entry.
#[derive(Debug, Clone, Copy, PartialEq, Eq, Structural)]
pub enum SidebarIcon {
    Cpu,
    Settings,
    Info,
    Globe,
}

/// One item of the main-window sidebar, top to bottom.
#[derive(Debug, Clone, Copy, PartialEq, Eq)]
pub enum SidebarItem {
    /// A navigation entry: where it leads, its label (message key), icon and
    /// icon colour, and whether it is the current selection.
    Entry { nav: SidebarNav, label: &'static str, icon: SidebarIcon, color: u32, active: bool },
    /// A muted section header (message key).
    Label(&'static str),
    /// A vertical gap, in points.
    Spacer(u32),
}

/// Colour of the General entry's icon.
pub const GENERAL_ICON_COLOR: u32 = 0x006b_7280;

/// Colour of the Permissions entry's icon.
pub const PERMISSIONS_ICON_COLOR: u32 = 0x00f9_7316;

/// The sidebar, with the selected entry marked: Devices, a gap, the
/// "Settings" header, then General, Permissions and Language separated by
/// small gaps.
pub open spec fn spec_sidebar(nav: SidebarNav) -> Seq<SidebarItem> {
    seq![
        SidebarItem::Entry {
            nav: SidebarNav::Devices,
            label: "Devices",
            icon: SidebarIcon::Cpu,
            color: ACCENT_BLUE,
            active: nav == SidebarNav::Devices,
        },
        SidebarItem::Spacer(16),
        SidebarItem::Label("Settings"),
        SidebarItem::Entry {
            nav: SidebarNav::General,
            label: "General",
            icon: SidebarIcon::Settings,
            color: GENERAL_ICON_COLOR,
            active: nav == SidebarNav::General,
        },
        SidebarItem::Spacer(4),
        SidebarItem::Entry {
            nav: SidebarNav::Permissions,
            label: "Permissions",
            icon: SidebarIcon::Info,
            color: PERMISSIONS_ICON_COLOR,
            active: nav == SidebarNav::Permissions,
        },
        SidebarItem::Spacer(4),
        SidebarItem::Entry {
            nav: SidebarNav::Language,
            label: "Language",
            icon: SidebarIcon::Globe,
            color: STATUS_CONNECTED,
            active: nav == SidebarNav::Language,
        },
    ]
}

/// The items of the main-window sidebar for the current selection.
pub fn sidebar_items(nav: SidebarNav) -> (items: Vec<SidebarItem>)
    ensures
        items@ == spec_sidebar(nav),
{
    let items = vec![
        SidebarItem::Entry {
            nav: SidebarNav::Devices,
            label: "Devices",
            icon: SidebarIcon::Cpu,
            color: ACCENT_BLUE,
            active: nav == SidebarNav::Devices,
        },
        SidebarItem::Spacer(16),
        SidebarItem::Label("Settings"),
        SidebarItem::Entry {
            nav: SidebarNav::General,
            label: "General",
            icon: SidebarIcon::Settings,
            color: GENERAL_ICON_COLOR,
            active: nav == SidebarNav::General,
        },
        SidebarItem::Spacer(4),
        SidebarItem::Entry {
            nav: SidebarNav::Permissions,
            label: "Permissions",
            icon: SidebarIcon::Info,
            color: PERMISSIONS_ICON_COLOR,
            active: nav == SidebarNav::Permissions,
        },
        SidebarItem::Spacer(4),
        SidebarItem::Entry {
            nav: SidebarNav::Language,
            label: "Language",
            icon: SidebarIcon::Globe,
            color: STATUS_CONNECTED,
            active: nav == SidebarNav::Language,
        },
    ];
    assert(items@ =~= spec_sidebar(nav));
    items
}

/// The sidebar marks the selection: an entry is active exactly when it leads
/// to the current selection, so exactly one entry is active on the overview
/// or a settings page, and none while a single device is shown.
pub proof fn lemma_sidebar_marks_selection(nav: SidebarNav)
    ensures
        forall|i: int| 0 <= i < 8 ==> (#[trigger] spec_sidebar(nav)[i] matches SidebarItem::Entry {
            nav: target,
            active,
            ..
        } ==> (active <==> target == nav)),
        (nav is Device) ==> forall|i: int| 0 <= i < 8 ==> !(#[trigger] spec_sidebar(nav)[i] matches
            SidebarItem::Entry { active: true, .. }),
        !(nav is Device) ==> exists|i: int| 0 <= i < 8 && (#[trigger] spec_sidebar(nav)[i] matches
            SidebarItem::Entry { active: true, .. }),
{
    let s = spec_sidebar(nav);
    match nav {
        SidebarNav::Devices => assert(s[0] matches SidebarItem::Entry { active: true, .. }),
        SidebarNav::General => assert(s[3] matches SidebarItem::Entry { active: true, .. }),
        SidebarNav::Permissions => assert(s[5] matches SidebarItem::Entry { active: true, .. }),
        SidebarNav::Language => assert(s[7] matches SidebarItem::Entry { active: true, .. }),
        SidebarNav::Device(_) => {},
    }
}

/// The footer's Accessibility indicator: its message key, dot colour, and
/// whether clicking it requests the grant.
#[derive(Debug, Clone, Copy, PartialEq, Eq)]
pub struct FooterStatus {
    pub label: &'static str,
    pub color: u32,
    pub clickable: bool,
}

/// Granted shows a quiet green status; not granted an amber, clickable
/// request for the grant.
pub fn footer_accessibility(granted: bool) -> (status: FooterStatus)
    ensures
        status == if granted {
            FooterStatus { label: "Accessibility granted", color: STATUS_CONNECTED, clickable: false }
        } else {
            FooterStatus {
                label: "Accessibility not granted · click to grant",
                color: STATUS_CONNECTING,
                clickable: true,
            }
        },
{
    if granted {
        FooterStatus { label: "Accessibility granted", color: STATUS_CONNECTED, clickable: false }
    } else {
        FooterStatus {
            label: "Accessibility not granted · click to grant",
            color: STATUS_CONNECTING,
            clickable: true,
        }
    }
}

} // verus!
