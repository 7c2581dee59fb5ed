//! Device records as the views read them, and the rules of the device
//! detail screen: which tabs a device gets, which one is active, and the
//! labels of the cards.

use vstd::prelude::*;
use vstd::string::{StrSliceExecFns, StringExecFns};
use crate::nav::SidebarNav;
use crate::text::{decimal, push_decimal, push_char};
use crate::theme::{STATUS_CONNECTED, STATUS_OFFLINE};

verus! {

/// Kind of a Logitech device, as reported by its HID++ descriptor.
#[derive(Debug, Clone, Copy, PartialEq, Eq, Structural)]
pub enum DeviceKind {
    Mouse,
    Keyboard,
    Numpad,
    Presenter,
    Remote,
    Trackball,
    Touchpad,
    Tablet,
    Gamepad,
    Joystick,
    Headset,
    Unknown,
}

/// Charging state of a battery.
#[derive(Debug, Clone, Copy, PartialEq, Eq, Structural)]
pub enum BatteryStatus {
    Discharging,
    Charging,
    ChargingSlow,
    Full,
    Error,
    Unknown,
}

/// Discrete charge level of a battery.
#[derive(Debug, Clone, Copy, PartialEq, Eq, Structural)]
pub enum BatteryLevel {
    Critical,
    Low,
    Good,
    Full,
    Unknown,
}

/// A battery reading.
#[derive(Debug, Clone, Copy, PartialEq, Eq, Structural)]
pub struct BatteryInfo {
    pub percentage: u8,
    pub level: BatteryLevel,
    pub status: BatteryStatus,
}

/// How a device is reached.
#[derive(Debug, Clone, Copy, PartialEq, Eq, Structural)]
pub enum RouteKind {
    /// Through a Bolt receiver.
    Bolt,
    /// Directly, over a USB cable.
    Usb,
    /// Directly, over Bluetooth.
    Bluetooth,
}

/// One known device, as the views show it.
pub struct DeviceRecord {
    pub kind: DeviceKind,
    pub display_name: String,
    pub online: bool,
    pub battery: Option<BatteryInfo>,
    pub slot: u8,
    pub config_key: String,
    pub route: Option<RouteKind>,
    pub serial_number: Option<String>,
    /// Path of the device photo from the device's asset bundle, if it has one.
    pub hero_image_path: Option<String>,
}

/// What the preview card of a device shows.
#[derive(Debug, PartialEq, Eq)]
pub enum DeviceImage {
    /// The device photo at this path, scaled to fit the card.
    Photo(String),
    /// A neutral placeholder glyph.
    Placeholder,
}

/// The device photo when the record carries one, otherwise the placeholder.
pub fn device_image(record: &DeviceRecord) -> (image: DeviceImage)
    ensures
        match image {
            DeviceImage::Photo(path) => record.hero_image_path matches Some(p) && path@ == p@,
            DeviceImage::Placeholder => record.hero_image_path is None,
        },
{
    match &record.hero_image_path {
        Some(p) => DeviceImage::Photo(p.clone()),
        None => DeviceImage::Placeholder,
    }
}

/// The active section of the device-detail screen.
#[derive(Debug, Clone, Copy, PartialEq, Eq, Structural)]
pub enum DetailTab {
    /// The mouse model with clickable button hotspots.
    Buttons,
    /// Pointer tuning — DPI and presets.
    Pointer,
    /// RGB lighting — color, brightness, on/off.
    Lighting,
    /// Device info and configuration.
    Info,
}

pub open spec fn spec_is_configurable_pointer(kind: DeviceKind) -> bool {
    kind == DeviceKind::Mouse || kind == DeviceKind::Trackball || kind == DeviceKind::Unknown
}

/// Whether a device drives the mouse model + DPI panel: mice, trackballs, and
/// devices of unknown kind. Other kinds fall back to the info tab.
pub fn is_configurable_pointer(kind: DeviceKind) -> (r: bool)
    ensures
        r == spec_is_configurable_pointer(kind),
{
    matches!(kind, DeviceKind::Mouse | DeviceKind::Trackball | DeviceKind::Unknown)
}

/// Wired (USB-cabled) keyboards: the only devices with the lighting tab.
pub open spec fn spec_supports_lighting(kind: DeviceKind, route: Option<RouteKind>) -> bool {
    kind == DeviceKind::Keyboard && route == Some(RouteKind::Usb)
}

/// Whether to offer the RGB lighting tab — wired keyboards only. Keyboards
/// on a receiver or on Bluetooth do not get it, nor does any device of
/// unknown kind (most mice report that pairing).
pub fn supports_lighting(record: &DeviceRecord) -> (r: bool)
    ensures
        r == spec_supports_lighting(record.kind, record.route),
{
    match (record.kind, record.route) {
        (DeviceKind::Keyboard, Some(RouteKind::Usb)) => true,
        _ => false,
    }
}

/// The detail sections of a device of `kind` reached over `route`, in tab order.
pub open spec fn spec_tabs_for(kind: DeviceKind, route: Option<RouteKind>) -> Seq<DetailTab> {
    (if spec_is_configurable_pointer(kind) {
        seq![DetailTab::Buttons, DetailTab::Pointer]
    } else {
        Seq::empty()
    }) + (if spec_supports_lighting(kind, route) {
        seq![DetailTab::Lighting]
    } else {
        Seq::empty()
    }) + seq![DetailTab::Info]
}

impl DetailTab {
    /// The detail sections shown for `record`, in tab order: button mapping
    /// and pointer tuning for pointers, lighting for wired keyboards, and
    /// always the info tab last.
    pub fn tabs_for(record: &DeviceRecord) -> (tabs: Vec<DetailTab>)
        ensures
            tabs@ == spec_tabs_for(record.kind, record.route),
    {
        let mut tabs = Vec::new();
        if is_configurable_pointer(record.kind) {
            tabs.push(DetailTab::Buttons);
            tabs.push(DetailTab::Pointer);
        }
        if supports_lighting(record) {
            tabs.push(DetailTab::Lighting);
        }
        tabs.push(DetailTab::Info);
        assert(tabs@ =~= spec_tabs_for(record.kind, record.route));
        tabs
    }

    /// The first (default) tab for `record` — what a freshly opened device shows.
    pub fn default_for(record: &DeviceRecord) -> (tab: DetailTab)
        ensures
            tab == spec_tabs_for(record.kind, record.route)[0],
    {
        let tabs = Self::tabs_for(record);
        if tabs.len() > 0 {
            tabs[0]
        } else {
            DetailTab::Info
        }
    }

    /// Message key of the tab's label.
    pub fn label(self) -> (key: &'static str)
        ensures
            key == spec_tab_label(self),
    {
        match self {
            Self::Buttons => "Buttons",
            Self::Pointer => "Pointer",
            Self::Lighting => "Lighting",
            Self::Info => "Info",
        }
    }
}

pub open spec fn spec_tab_label(tab: DetailTab) -> &'static str {
    match tab {
        DetailTab::Buttons => "Buttons",
        DetailTab::Pointer => "Pointer",
        DetailTab::Lighting => "Lighting",
        DetailTab::Info => "Info",
    }
}

/// Mice, trackballs and devices of unknown kind open on button mapping
/// followed by pointer tuning, whatever the route; no other kind gets either
/// tab.
pub proof fn lemma_pointer_tabs_by_kind(kind: DeviceKind, route: Option<RouteKind>)
    ensures
        (kind == DeviceKind::Mouse || kind == DeviceKind::Trackball || kind == DeviceKind::Unknown) ==> {
            &&& spec_tabs_for(kind, route).len() >= 2
            &&& spec_tabs_for(kind, route)[0] == DetailTab::Buttons
            &&& spec_tabs_for(kind, route)[1] == DetailTab::Pointer
        },
        !(kind == DeviceKind::Mouse || kind == DeviceKind::Trackball || kind == DeviceKind::Unknown) ==> {
            &&& !spec_tabs_for(kind, route).contains(DetailTab::Buttons)
            &&& !spec_tabs_for(kind, route).contains(DetailTab::Pointer)
        },
{
    lemma_tabs_shape(kind, route);
}

/// The tab set of every device is non-empty, ends with the info tab, holds
/// no tab twice, offers button mapping exactly for configurable pointers and
/// lighting exactly for wired keyboards; the default tab is one of them.
pub proof fn lemma_tabs_shape(kind: DeviceKind, route: Option<RouteKind>)
    ensures
        spec_tabs_for(kind, route).len() > 0,
        spec_tabs_for(kind, route).last() == DetailTab::Info,
        spec_tabs_for(kind, route).no_duplicates(),
        spec_tabs_for(kind, route).contains(DetailTab::Buttons) <==> spec_is_configurable_pointer(kind),
        spec_tabs_for(kind, route).contains(DetailTab::Pointer) <==> spec_is_configurable_pointer(kind),
        spec_tabs_for(kind, route).contains(DetailTab::Lighting) <==> spec_supports_lighting(kind, route),
        spec_tabs_for(kind, route).contains(DetailTab::Info),
        spec_tabs_for(kind, route).contains(spec_tabs_for(kind, route)[0]),
{
    let t = spec_tabs_for(kind, route);
    if spec_is_configurable_pointer(kind) {
        assert(t[0] == DetailTab::Buttons);
        assert(t[1] == DetailTab::Pointer);
    }
    if spec_supports_lighting(kind, route) {
        assert(t[0] == DetailTab::Lighting);
    }
    assert(t[t.len() - 1] == DetailTab::Info);
    assert(t.contains(t[0]));
}

/// Whether `tabs` holds `tab`.
fn tabs_contain(tabs: &Vec<DetailTab>, tab: DetailTab) -> (r: bool)
    ensures
        r == tabs@.contains(tab),
{
    let mut i: usize = 0;
    while i < tabs.len()
        invariant
            i <= tabs@.len(),
            forall|j: int| 0 <= j < i ==> tabs@[j] != tab,
        decreases tabs@.len() - i,
    {
        if tabs[i] == tab {
            return true;
        }
        i = i + 1;
    }
    false
}

pub open spec fn spec_valid_tab(kind: DeviceKind, route: Option<RouteKind>, active: DetailTab) -> DetailTab {
    if spec_tabs_for(kind, route).contains(active) { active } else { spec_tabs_for(kind, route)[0] }
}

/// `active` when the device of `record` exposes it, else that device's first tab.
pub fn valid_tab(record: &DeviceRecord, active: DetailTab) -> (tab: DetailTab)
    ensures
        tab == spec_valid_tab(record.kind, record.route, active),
{
    let tabs = DetailTab::tabs_for(record);
    if tabs_contain(&tabs, active) {
        active
    } else {
        tabs[0]
    }
}

/// Drop `active` when the current device no longer exposes that section.
/// Only a device selection with a current record is reconciled.
pub fn reconcile_active_tab(nav: SidebarNav, record: Option<&DeviceRecord>, active: DetailTab) -> (tab: DetailTab)
    ensures
        tab == match (nav, record) {
            (SidebarNav::Device(_), Some(r)) => spec_valid_tab(r.kind, r.route, active),
            _ => active,
        },
{
    if !matches!(nav, SidebarNav::Device(_)) {
        return active;
    }
    match record {
        Some(r) => valid_tab(r, active),
        None => active,
    }
}

/// The active tab is always one that the device exposes, and reconciling twice
/// changes nothing more.
pub proof fn lemma_valid_tab_exposed(kind: DeviceKind, route: Option<RouteKind>, active: DetailTab)
    ensures
        spec_tabs_for(kind, route).contains(spec_valid_tab(kind, route, active)),
        spec_valid_tab(kind, route, spec_valid_tab(kind, route, active)) == spec_valid_tab(kind, route, active),
        spec_tabs_for(kind, route).contains(active) ==> spec_valid_tab(kind, route, active) == active,
{
    lemma_tabs_shape(kind, route);
}

/// The tab shown right after navigating to a device: the default tab of the
/// new current device, or the info tab when there is no current record.
pub fn tab_after_navigation(record: Option<&DeviceRecord>) -> (tab: DetailTab)
    ensures
        tab == match record {
            Some(r) => spec_tabs_for(r.kind, r.route)[0],
            None => DetailTab::Info,
        },
{
    match record {
        Some(r) => DetailTab::default_for(r),
        None => DetailTab::Info,
    }
}

/// Index of `active` in the tab bar, or the first tab when it is not there.
pub fn active_tab_index(tabs: &Vec<DetailTab>, active: DetailTab) -> (ix: usize)
    ensures
        tabs@.contains(active) ==> ix < tabs@.len() && tabs@[ix as int] == active
            && forall|j: int| 0 <= j < ix ==> tabs@[j] != active,
        !tabs@.contains(active) ==> ix == 0,
{
    let mut i: usize = 0;
    while i < tabs.len()
        invariant
            i <= tabs@.len(),
            forall|j: int| 0 <= j < i ==> tabs@[j] != active,
        decreases tabs@.len() - i,
    {
        if tabs[i] == active {
            return i;
        }
        i = i + 1;
    }
    0
}

/// The tab selected by a click on tab-bar position `ix` (the info tab for a
/// position past the end).
pub fn tab_at(tabs: &Vec<DetailTab>, ix: usize) -> (tab: DetailTab)
    ensures
        tab == if ix < tabs@.len() { tabs@[ix as int] } else { DetailTab::Info },
{
    if ix < tabs.len() {
        tabs[ix]
    } else {
        DetailTab::Info
    }
}

/// The tabs of the detail screen: the current device's tabs, or the info
/// tab alone without a current record.
pub fn detail_tabs(record: Option<&DeviceRecord>) -> (tabs: Vec<DetailTab>)
    ensures
        tabs@ == match record {
            Some(r) => spec_tabs_for(r.kind, r.route),
            None => seq![DetailTab::Info],
        },
{
    match record {
        Some(r) => DetailTab::tabs_for(r),
        None => {
            let v = vec![DetailTab::Info];
            assert(v@ =~= seq![DetailTab::Info]);
            v
        },
    }
}

/// Subtitle of a gallery card: `<kind> · slot <n>`.
pub fn card_subtitle(kind_text: &str, slot: u8) -> (text: String)
    ensures
        text@ == kind_text@ + " · slot "@ + decimal(slot as nat),
{
    let mut text = String::from_str(kind_text);
    text.append(" · slot ");
    push_decimal(&mut text, slot as u64);
    text
}

/// Icon shown for a battery reading.
#[derive(Debug, Clone, Copy, PartialEq, Eq, Structural)]
pub enum BatteryGlyph {
    Charging,
    Full,
    Warning,
    Low,
    Medium,
    Plain,
}

pub open spec fn spec_battery_icon(b: BatteryInfo) -> BatteryGlyph {
    match b.status {
        BatteryStatus::Charging | BatteryStatus::ChargingSlow => BatteryGlyph::Charging,
        BatteryStatus::Full => BatteryGlyph::Full,
        BatteryStatus::Error => BatteryGlyph::Warning,
        BatteryStatus::Discharging | BatteryStatus::Unknown => match b.level {
            BatteryLevel::Critical => BatteryGlyph::Warning,
            BatteryLevel::Low => BatteryGlyph::Low,
            BatteryLevel::Good => BatteryGlyph::Medium,
            BatteryLevel::Full => BatteryGlyph::Full,
            BatteryLevel::Unknown => BatteryGlyph::Plain,
        },
    }
}

/// While a battery discharges (or reports no state), its glyph follows the
/// charge level alone — critical shows the warning, low the low battery,
/// good the medium battery, full the full one, an unknown level the plain
/// battery — and a discharging and an unknown-state reading of the same
/// level look alike. A charging battery always shows the charging glyph,
/// whatever its level.
pub proof fn lemma_battery_glyph_by_level(b: BatteryInfo, other: BatteryInfo)
    ensures
        (b.status == BatteryStatus::Discharging || b.status == BatteryStatus::Unknown) ==> {
            &&& b.level == BatteryLevel::Critical ==> spec_battery_icon(b) == BatteryGlyph::Warning
            &&& b.level == BatteryLevel::Low ==> spec_battery_icon(b) == BatteryGlyph::Low
            &&& b.level == BatteryLevel::Good ==> spec_battery_icon(b) == BatteryGlyph::Medium
            &&& b.level == BatteryLevel::Full ==> spec_battery_icon(b) == BatteryGlyph::Full
            &&& b.level == BatteryLevel::Unknown ==> spec_battery_icon(b) == BatteryGlyph::Plain
        },
        (b.status == BatteryStatus::Discharging || b.status == BatteryStatus::Unknown)
            && (other.status == BatteryStatus::Discharging || other.status == BatteryStatus::Unknown)
            && b.level == other.level ==> spec_battery_icon(b) == spec_battery_icon(other),
        (b.status == BatteryStatus::Charging || b.status == BatteryStatus::ChargingSlow)
            ==> spec_battery_icon(b) == BatteryGlyph::Charging,
        b.status == BatteryStatus::Full ==> spec_battery_icon(b) == BatteryGlyph::Full,
        b.status == BatteryStatus::Error ==> spec_battery_icon(b) == BatteryGlyph::Warning,
{
}

/// Pick the battery glyph from charge state first (charging / full / error),
/// then fall back to the discrete charge level for a plain discharge.
pub fn battery_icon(b: &BatteryInfo) -> (g: BatteryGlyph)
    ensures
        g == spec_battery_icon(*b),
{
    match b.status {
        BatteryStatus::Charging | BatteryStatus::ChargingSlow => BatteryGlyph::Charging,
        BatteryStatus::Full => BatteryGlyph::Full,
        BatteryStatus::Error => BatteryGlyph::Warning,
        BatteryStatus::Discharging | BatteryStatus::Unknown => match b.level {
            BatteryLevel::Critical => BatteryGlyph::Warning,
            BatteryLevel::Low => BatteryGlyph::Low,
            BatteryLevel::Good => BatteryGlyph::Medium,
            BatteryLevel::Full => BatteryGlyph::Full,
            BatteryLevel::Unknown => BatteryGlyph::Plain,
        },
    }
}

/// The glyph for an optional battery reading: the plain battery without one,
/// otherwise the glyph of the reading.
pub fn battery_glyph(b: Option<&BatteryInfo>) -> (g: BatteryGlyph)
    ensures
        g == match b {
            Some(b) => spec_battery_icon(*b),
            None => BatteryGlyph::Plain,
        },
{
    match b {
        Some(b) => battery_icon(b),
        None => BatteryGlyph::Plain,
    }
}

/// The dash shown when there is no battery reading.
pub const NO_READING: &'static str = "—";

/// Battery readout `N%`, or a dash without a reading.
pub fn battery_percentage_text(b: Option<&BatteryInfo>) -> (text: String)
    ensures
        text@ == match b {
            Some(b) => decimal(b.percentage as nat).push('%'),
            None => NO_READING@,
        },
{
    match b {
        Some(b) => {
            let mut s = String::new();
            push_decimal(&mut s, b.percentage as u64);
            push_char(&mut s, '%');
            s
        },
        None => String::from_str(NO_READING),
    }
}

/// Status pill label (message key) and dot colour.
pub fn status_label(online: bool) -> (r: (&'static str, u32))
    ensures
        r == if online { ("Connected", STATUS_CONNECTED) } else { ("Offline", STATUS_OFFLINE) },
{
    if online {
        ("Connected", STATUS_CONNECTED)
    } else {
        ("Offline", STATUS_OFFLINE)
    }
}

pub open spec fn spec_kind_label(kind: DeviceKind) -> &'static str {
    match kind {
        DeviceKind::Mouse => "Mouse",
        DeviceKind::Keyboard => "Keyboard",
        DeviceKind::Numpad => "Numpad",
        DeviceKind::Presenter => "Presenter",
        DeviceKind::Remote => "Remote",
        DeviceKind::Trackball => "Trackball",
        DeviceKind::Touchpad => "Touchpad",
        DeviceKind::Tablet => "Tablet",
        DeviceKind::Gamepad => "Gamepad",
        DeviceKind::Joystick => "Joystick",
        DeviceKind::Headset => "Headset",
        DeviceKind::Unknown => "Device",
    }
}

/// Message key naming a device kind.
pub fn kind_label(kind: DeviceKind) -> (key: &'static str)
    ensures
        key == spec_kind_label(kind),
{
    match kind {
        DeviceKind::Mouse => "Mouse",
        DeviceKind::Keyboard => "Keyboard",
        DeviceKind::Numpad => "Numpad",
        DeviceKind::Presenter => "Presenter",
        DeviceKind::Remote => "Remote",
        DeviceKind::Trackball => "Trackball",
        DeviceKind::Touchpad => "Touchpad",
        DeviceKind::Tablet => "Tablet",
        DeviceKind::Gamepad => "Gamepad",
        DeviceKind::Joystick => "Joystick",
        DeviceKind::Headset => "Headset",
        DeviceKind::Unknown => "Device",
    }
}

pub open spec fn spec_route_label(route: Option<RouteKind>) -> &'static str {
    match route {
        Some(RouteKind::Bolt) => "Bolt receiver",
        Some(RouteKind::Usb) | Some(RouteKind::Bluetooth) => "Direct connection",
        None => "Unavailable",
    }
}

/// Message key describing how a device is connected.
pub fn route_label(route: Option<RouteKind>) -> (key: &'static str)
    ensures
        key == spec_route_label(route),
{
    match route {
        Some(RouteKind::Bolt) => "Bolt receiver",
        Some(RouteKind::Usb) | Some(RouteKind::Bluetooth) => "Direct connection",
        None => "Unavailable",
    }
}

/// The value of a description-list row.
pub enum DescriptionValue {
    /// A message key.
    Localized(&'static str),
    /// Text shown as it is.
    Text(String),
}

/// One row of the device description list: a message key and a value.
pub struct DescriptionEntry {
    pub label: &'static str,
    pub value: DescriptionValue,
}

/// Rows of the device details card: connection, slot, device key, and the
/// serial number when the device reports one.
pub fn description_entries(record: &DeviceRecord) -> (rows: Vec<DescriptionEntry>)
    ensures
        rows@.len() == if record.serial_number is Some { 4int } else { 3int },
        rows@[0].label == "Connection",
        rows@[0].value matches DescriptionValue::Localized(k) && k == spec_route_label(record.route),
        rows@[1].label == "Slot",
        rows@[1].value matches DescriptionValue::Text(t) && t@ == decimal(record.slot as nat),
        rows@[2].label == "Device key",
        rows@[2].value matches DescriptionValue::Text(t) && t@ == record.config_key@,
        record.serial_number matches Some(s) ==> rows@[3].label == "Serial",
        record.serial_number matches Some(s) ==> (rows@[3].value matches DescriptionValue::Text(t)
            && t@ == s@),
{
    let mut slot = String::new();
    push_decimal(&mut slot, record.slot as u64);
    let mut rows = vec![
        DescriptionEntry { label: "Connection", value: DescriptionValue::Localized(route_label(record.route)) },
        DescriptionEntry { label: "Slot", value: DescriptionValue::Text(slot) },
        DescriptionEntry { label: "Device key", value: DescriptionValue::Text(record.config_key.clone()) },
    ];
    if let Some(serial) = &record.serial_number {
        rows.push(DescriptionEntry { label: "Serial", value: DescriptionValue::Text(serial.clone()) });
    }
    rows
}

/// What the configuration card reads from the app state.
pub struct ConfigurationState {
    pub button_bindings: usize,
    pub gesture_bindings: usize,
    pub dpi_presets: usize,
    /// Bundle identifier of the application whose profile is active.
    pub current_app_bundle: Option<String>,
}

/// Rows of the configuration card: the active profile (the frontmost
/// application's, else the default profile) and the number of button
/// bindings, gesture bindings and DPI presets — zero counts and the default
/// profile before the app state exists.
pub fn configuration_entries(state: Option<&ConfigurationState>) -> (rows: Vec<DescriptionEntry>)
    ensures
        rows@.len() == 4,
        rows@[0].label == "Active profile",
        rows@[1].label == "Button bindings",
        rows@[2].label == "Gesture bindings",
        rows@[3].label == "DPI presets",
        match state {
            Some(s) => {
                &&& match s.current_app_bundle {
                    Some(b) => rows@[0].value matches DescriptionValue::Text(t) && t@ == b@,
                    None => rows@[0].value == DescriptionValue::Localized("Default profile"),
                }
                &&& rows@[1].value matches DescriptionValue::Text(t) && t@ == decimal(s.button_bindings as nat)
                &&& rows@[2].value matches DescriptionValue::Text(t) && t@ == decimal(s.gesture_bindings as nat)
                &&& rows@[3].value matches DescriptionValue::Text(t) && t@ == decimal(s.dpi_presets as nat)
            },
            None => {
                &&& rows@[0].value == DescriptionValue::Localized("Default profile")
                &&& rows@[1].value matches DescriptionValue::Text(t) && t@ == decimal(0)
                &&& rows@[2].value matches DescriptionValue::Text(t) && t@ == decimal(0)
                &&& rows@[3].value matches DescriptionValue::Text(t) && t@ == decimal(0)
            },
        },
{
    let (buttons, gestures, presets) = match state {
        Some(s) => (s.button_bindings as u64, s.gesture_bindings as u64, s.dpi_presets as u64),
        None => (0u64, 0u64, 0u64),
    };
    let profile = match state {
        Some(s) => match &s.current_app_bundle {
            Some(b) => DescriptionValue::Text(b.clone()),
            None => DescriptionValue::Localized("Default profile"),
        },
        None => DescriptionValue::Localized("Default profile"),
    };
    let mut b = String::new();
    push_decimal(&mut b, buttons);
    let mut g = String::new();
    push_decimal(&mut g, gestures);
    let mut p = String::new();
    push_decimal(&mut p, presets);
    vec![
        DescriptionEntry { label: "Active profile", value: profile },
        DescriptionEntry { label: "Button bindings", value: DescriptionValue::Text(b) },
        DescriptionEntry { label: "Gesture bindings", value: DescriptionValue::Text(g) },
        DescriptionEntry { label: "DPI presets", value: DescriptionValue::Text(p) },
    ]
}

/// The card highlighted in the device gallery: the current device, clamped
/// to the last one.
pub fn gallery_active_index(current_device: usize, device_count: usize) -> (ix: usize)
    ensures
        ix == if current_device < device_count { current_device } else if device_count == 0 {
            0
        } else {
            (device_count - 1) as usize
        },
{
    let last = device_count.saturating_sub(1);
    if current_device < last { current_device } else { last }
}

/// Headline of the no-device placeholder (message key).
pub fn empty_state_title(scanning: bool) -> (key: &'static str)
    ensures
        key == if scanning { "Scanning for devices…" } else { "No devices connected" },
{
    if scanning { "Scanning for devices…" } else { "No devices connected" }
}

/// `path` with every space escaped as `%20`.
pub open spec fn escape_spaces(path: Seq<char>) -> Seq<char>
    decreases path.len(),
{
    if path.len() == 0 {
        Seq::empty()
    } else {
        escape_spaces(path.drop_last()) + (if path.last() == ' ' {
            seq!['%', '2', '0']
        } else {
            seq![path.last()]
        })
    }
}

/// The scheme prefix of a file URL.
pub const FILE_SCHEME: &'static str = "file://";

/// A `file://` URL for `path` (spaces escaped as `%20`).
pub fn file_url(path: &str) -> (url: String)
    ensures
        url@ == FILE_SCHEME@ + escape_spaces(path@),
{
    let mut url = String::from_str(FILE_SCHEME);
    let n = path.unicode_len();
    let mut i: usize = 0;
    while i < n
        invariant
            n == path@.len(),
            i <= n,
            url@ == FILE_SCHEME@ + escape_spaces(path@.take(i as int)),
        decreases n - i,
    {
        let c = path.get_char(i);
        if c == ' ' {
            push_char(&mut url, '%');
            push_char(&mut url, '2');
            push_char(&mut url, '0');
        } else {
            push_char(&mut url, c);
        }
        assert(path@.take(i + 1).drop_last() == path@.take(i as int));
        i = i + 1;
    }
    assert(path@.take(n as int) == path@);
    url
}

/// The escaped path holds no space, and a path without spaces is kept as it is.
pub proof fn lemma_escape_spaces(path: Seq<char>)
    ensures
        !escape_spaces(path).contains(' '),
        !path.contains(' ') ==> escape_spaces(path) == path,
    decreases path.len(),
{
    if path.len() > 0 {
        lemma_escape_spaces(path.drop_last());
        let e = escape_spaces(path.drop_last());
        let tail = if path.last() == ' ' { seq!['%', '2', '0'] } else { seq![path.last()] };
        assert(escape_spaces(path) == e + tail);
        assert forall|i: int| 0 <= i < (e + tail).len() implies (e + tail)[i] != ' ' by {
            if i < e.len() {
                assert(!e.contains(' '));
                assert((e + tail)[i] == e[i]);
            }
        }
        if !path.contains(' ') {
            assert forall|i: int| 0 <= i < path.drop_last().len() implies path.drop_last()[i] != ' ' by {
                assert(path.drop_last()[i] == path[i]);
            }
            assert(path[path.len() - 1] != ' ');
            assert(path.drop_last().push(path.last()) =~= path);
        }
    }
}

} // verus!
