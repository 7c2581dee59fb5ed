//! Settings sections and the interface-language choice.

use vstd::prelude::*;
use crate::text::str_eq;
use crate::theme::{STATUS_CONNECTED, STATUS_CONNECTING, STATUS_OFFLINE};

verus! {

/// Which settings page to show in the main window detail pane.
#[derive(Debug, Clone, Copy, PartialEq, Eq, Structural)]
pub enum SettingsSection {
    General,
    Permissions,
    Language,
}

/// Message key of the "Follow system" entry.
pub const FOLLOW_SYSTEM: &'static str = "Follow system";

/// One entry of the language select: a language code (empty for "follow the
/// system locale") and the label shown for it.
#[derive(Clone, Copy)]
pub struct LanguageOption {
    pub label: &'static str,
    pub value: &'static str,
    pub localize_label: bool,
}

/// How an option's title is shown: through the message catalog, or verbatim.
#[derive(Debug, Clone, Copy, PartialEq, Eq)]
pub enum OptionTitle {
    /// Look this key up in the current locale.
    Localized(&'static str),
    /// Show this text as it is (a language's own name).
    Plain(&'static str),
}

impl LanguageOption {
    /// The title of this option: the "Follow system" entry is localized into
    /// the current locale; a language is always shown under its own name.
    pub fn title(&self) -> (t: OptionTitle)
        ensures
            t == (if self.localize_label {
                OptionTitle::Localized(FOLLOW_SYSTEM)
            } else {
                OptionTitle::Plain(self.label)
            }),
    {
        if self.localize_label {
            OptionTitle::Localized(FOLLOW_SYSTEM)
        } else {
            OptionTitle::Plain(self.label)
        }
    }

    /// The language code this option stands for.
    pub fn value(&self) -> (v: &&'static str)
        ensures
            *v == self.value,
    {
        &self.value
    }
}

/// The option that follows the system locale.
pub open spec fn follow_system_option() -> LanguageOption {
    LanguageOption { label: FOLLOW_SYSTEM, value: "", localize_label: true }
}

/// The options offered for `supported` (pairs of code and native name):
/// "Follow system" first, then every supported language in order.
pub open spec fn spec_language_options(supported: Seq<(&'static str, &'static str)>) -> Seq<LanguageOption> {
    seq![follow_system_option()] + supported.map_values(
        |p: (&'static str, &'static str)| LanguageOption { label: p.1, value: p.0, localize_label: false },
    )
}

/// All language choices: "Follow system" first, then the supported languages
/// (code, native name) in the order given.
pub fn language_options(supported: &[(&'static str, &'static str)]) -> (options: Vec<LanguageOption>)
    ensures
        options@ == spec_language_options(supported@),
{
    let mut options = vec![LanguageOption { label: FOLLOW_SYSTEM, value: "", localize_label: true }];
    let mut i: usize = 0;
    while i < supported.len()
        invariant
            i <= supported@.len(),
            options@ == spec_language_options(supported@.take(i as int)),
        decreases supported@.len() - i,
    {
        let (code, name) = supported[i];
        options.push(LanguageOption { label: name, value: code, localize_label: false });
        assert(supported@.take(i + 1) == supported@.take(i as int).push(supported@[i as int]));
        i = i + 1;
    }
    assert(supported@.take(supported@.len() as int) == supported@);
    options
}

/// The setting value looked up for `current`: the code itself, or the empty
/// code ("follow system") when no language is set.
pub open spec fn wanted_value(current: Option<Seq<char>>) -> Seq<char> {
    match current {
        Some(c) => c,
        None => Seq::empty(),
    }
}

/// Index of the first of the first `n` options whose code is `v`.
pub open spec fn first_match(options: Seq<LanguageOption>, v: Seq<char>, n: nat) -> Option<nat>
    decreases n,
{
    if n == 0 {
        None
    } else {
        match first_match(options, v, (n - 1) as nat) {
            Some(i) => Some(i),
            None => if options[n - 1].value@ == v { Some((n - 1) as nat) } else { None },
        }
    }
}

/// The row that the language select starts on: the first option whose code
/// is the current setting, or the first row when none matches.
pub open spec fn selected_row(options: Seq<LanguageOption>, current: Option<Seq<char>>) -> nat {
    match first_match(options, wanted_value(current), options.len()) {
        Some(i) => i,
        None => 0,
    }
}

/// The row of `options` to preselect for the current language setting
/// (`None` = follow the system): the first option with that code, else row 0.
pub fn selected_language_index(current: Option<&str>, options: &[LanguageOption]) -> (row: usize)
    ensures
        row == selected_row(options@, match current { Some(c) => Some(c@), None => None }),
{
    let value: &str = match current {
        Some(c) => c,
        None => "",
    };
    let ghost v = wanted_value(match current { Some(c) => Some(c@), None => None });
    proof {
        if current is None {
            reveal_strlit("");
            assert(value@ =~= v);
        }
    }
    let mut i: usize = 0;
    while i < options.len()
        invariant
            i <= options@.len(),
            value@ == v,
            v == wanted_value(match current { Some(c) => Some(c@), None => None }),
            first_match(options@, v, i as nat) is None,
        decreases options@.len() - i,
    {
        if str_eq(options[i].value, value) {
            assert(first_match(options@, v, (i + 1) as nat) == Some(i as nat));
            proof { lemma_first_match_stable(options@, v, (i + 1) as nat, options@.len()); }
            return i;
        }
        i = i + 1;
    }
    0
}

/// Once found among the first `n` options, the first match stays the same
/// when more options are looked at.
proof fn lemma_first_match_stable(options: Seq<LanguageOption>, v: Seq<char>, n: nat, m: nat)
    requires
        n <= m,
        first_match(options, v, n) is Some,
    ensures
        first_match(options, v, m) == first_match(options, v, n),
    decreases m - n,
{
    if n < m {
        lemma_first_match_stable(options, v, n, (m - 1) as nat);
    }
}

/// What `first_match` finds is a match within range, and it finds one
/// whenever there is one.
proof fn lemma_first_match_found(options: Seq<LanguageOption>, v: Seq<char>, n: nat)
    requires
        n <= options.len(),
    ensures
        first_match(options, v, n) matches Some(i) ==> i < n && options[i as int].value@ == v,
        (exists|j: int| 0 <= j < n && options[j].value@ == v) ==> first_match(options, v, n) is Some,
    decreases n,
{
    if n > 0 {
        lemma_first_match_found(options, v, (n - 1) as nat);
        if exists|j: int| 0 <= j < n && options[j].value@ == v {
            let j = choose|j: int| 0 <= j < n && options[j].value@ == v;
            if j < n - 1 {
                assert(exists|j: int| 0 <= j < n - 1 && options[j].value@ == v);
            }
        }
    }
}

/// The language setting stored when `selected` is confirmed in the select:
/// an empty code (or no selection) means "follow the system".
pub open spec fn language_for(selected: Option<Seq<char>>) -> Option<Seq<char>> {
    match selected {
        Some(code) => if code.len() == 0 { None } else { Some(code) },
        None => None,
    }
}

/// The language setting to store after the select confirms `selected`.
pub fn language_from_selection(selected: Option<&str>) -> (language: Option<String>)
    ensures
        match language { Some(l) => Some(l@), None => None } == language_for(
            match selected { Some(c) => Some(c@), None => None },
        ),
{
    match selected {
        Some(code) => {
            if code.is_empty() {
                None
            } else {
                Some(code.to_owned())
            }
        },
        None => None,
    }
}

/// Preselecting the row for a setting and confirming that row stores the
/// setting again: for "follow the system" (the first option has the empty
/// code) and for every language code that one of the options carries.
pub proof fn lemma_language_round_trip(options: Seq<LanguageOption>, current: Option<Seq<char>>)
    requires
        options.len() > 0,
        options[0].value@ == Seq::<char>::empty(),
        match current {
            Some(c) => c.len() > 0 && exists|i: int| 0 <= i < options.len() && options[i].value@ == c,
            None => true,
        },
    ensures
        selected_row(options, current) < options.len(),
        language_for(Some(options[selected_row(options, current) as int].value@)) == current,
{
    let v = wanted_value(current);
    lemma_first_match_found(options, v, options.len());
    if current is None {
        assert(options[0].value@ == v);
    }
}

/// The options built for a list of supported languages meet the round trip's
/// conditions: the first one follows the system, and each supported code is
/// carried by the option right after it in order.
pub proof fn lemma_language_options_shape(supported: Seq<(&'static str, &'static str)>)
    ensures
        spec_language_options(supported).len() == supported.len() + 1,
        spec_language_options(supported)[0].value@ == Seq::<char>::empty(),
        forall|i: int| 0 <= i < supported.len() ==>
            #[trigger] spec_language_options(supported)[i + 1].value == supported[i].0,
{
    reveal_strlit("");
}


/// Status of a macOS privacy permission.
#[derive(Debug, Clone, Copy, PartialEq, Eq, Structural)]
pub enum PermissionStatus {
    Granted,
    Denied,
    Unknown,
}

/// Label (message key) and colour of a permission's status badge.
pub fn status_badge(status: PermissionStatus) -> (badge: (&'static str, u32))
    ensures
        badge == match status {
            PermissionStatus::Granted => ("Granted", STATUS_CONNECTED),
            PermissionStatus::Denied => ("Not granted", STATUS_CONNECTING),
            PermissionStatus::Unknown => ("Unknown", STATUS_OFFLINE),
        },
{
    match status {
        PermissionStatus::Granted => ("Granted", STATUS_CONNECTED),
        PermissionStatus::Denied => ("Not granted", STATUS_CONNECTING),
        PermissionStatus::Unknown => ("Unknown", STATUS_OFFLINE),
    }
}

/// The Accessibility row's status: granted or not — never unknown, since
/// the trust state is always queried live.
pub fn accessibility_status(granted: bool) -> (status: PermissionStatus)
    ensures
        status == if granted { PermissionStatus::Granted } else { PermissionStatus::Denied },
{
    if granted { PermissionStatus::Granted } else { PermissionStatus::Denied }
}


/// The switches of the General page, as the app settings hold them.
#[derive(Debug, Clone, Copy, PartialEq, Eq, Structural)]
pub struct GeneralSettings {
    pub launch_at_login: bool,
    pub check_for_updates: bool,
    pub show_in_menu_bar: bool,
}

/// Which setting a switch row toggles.
#[derive(Debug, Clone, Copy, PartialEq, Eq, Structural)]
pub enum GeneralSwitch {
    LaunchAtLogin,
    CheckForUpdates,
    ShowInMenuBar,
}

/// One switch row of the General page: element id, title and description
/// (message keys), the setting it toggles and its current state.
#[derive(Debug, Clone, Copy, PartialEq, Eq)]
pub struct SwitchRow {
    pub id: &'static str,
    pub title: &'static str,
    pub description: &'static str,
    pub switch: GeneralSwitch,
    pub checked: bool,
}

/// The General page's switch rows: launch at login and update checks, plus
/// the menu-bar switch where the status item exists (macOS). Without app
/// settings every switch shows off.
pub fn general_rows(settings: Option<GeneralSettings>, has_menu_bar: bool) -> (rows: Vec<SwitchRow>)
    ensures
        rows@.len() == if has_menu_bar { 3int } else { 2int },
        rows@[0].switch == GeneralSwitch::LaunchAtLogin,
        rows@[0].id == "settings-launch-login",
        rows@[0].title == "Launch at login",
        rows@[0].description == "Automatically start OpenLogi when you log in to macOS.",
        rows@[1].switch == GeneralSwitch::CheckForUpdates,
        rows@[1].id == "settings-check-updates",
        rows@[1].title == "Check for updates",
        rows@[1].description
            == "Check once per launch for a new version (query only — no automatic download).",
        has_menu_bar ==> rows@[2].switch == GeneralSwitch::ShowInMenuBar,
        has_menu_bar ==> rows@[2].id == "settings-menu-bar",
        has_menu_bar ==> rows@[2].title == "Show in menu bar",
        has_menu_bar ==> rows@[2].description
            == "Keep OpenLogi's icon in the menu bar. When off, it stays in the Dock instead.",
        forall|i: int| 0 <= i < rows@.len() ==> #[trigger] rows@[i].checked == match settings {
            None => false,
            Some(s) => match rows@[i].switch {
                GeneralSwitch::LaunchAtLogin => s.launch_at_login,
                GeneralSwitch::CheckForUpdates => s.check_for_updates,
                GeneralSwitch::ShowInMenuBar => s.show_in_menu_bar,
            },
        },
{
    let (launch, updates, menu_bar) = match settings {
        Some(s) => (s.launch_at_login, s.check_for_updates, s.show_in_menu_bar),
        None => (false, false, false),
    };
    let mut rows = vec![
        SwitchRow {
            id: "settings-launch-login",
            title: "Launch at login",
            description: "Automatically start OpenLogi when you log in to macOS.",
            switch: GeneralSwitch::LaunchAtLogin,
            checked: launch,
        },
        SwitchRow {
            id: "settings-check-updates",
            title: "Check for updates",
            description: "Check once per launch for a new version (query only — no automatic download).",
            switch: GeneralSwitch::CheckForUpdates,
            checked: updates,
        },
    ];
    if has_menu_bar {
        rows.push(SwitchRow {
            id: "settings-menu-bar",
            title: "Show in menu bar",
            description: "Keep OpenLogi's icon in the menu bar. When off, it stays in the Dock instead.",
            switch: GeneralSwitch::ShowInMenuBar,
            checked: menu_bar,
        });
    }
    rows
}

/// A macOS privacy permission that OpenLogi uses.
#[derive(Debug, Clone, Copy, PartialEq, Eq, Structural)]
pub enum Permission {
    Accessibility,
    InputMonitoring,
    Bluetooth,
}

/// One row of the Permissions page: element id, title and description
/// (message keys), the permission whose pane "Open" shows, and its status.
#[derive(Debug, Clone, Copy, PartialEq, Eq)]
pub struct PermissionRow {
    pub id: &'static str,
    pub title: &'static str,
    pub description: &'static str,
    pub permission: Permission,
    pub status: PermissionStatus,
}

/// The Permissions page: Accessibility (from the live trust state), Input
/// Monitoring and Bluetooth (as queried), in that order.
pub fn permission_rows(
    accessibility_granted: bool,
    input_monitoring: PermissionStatus,
    bluetooth: PermissionStatus,
) -> (rows: Vec<PermissionRow>)
    ensures
        rows@ == seq![
            PermissionRow {
                id: "main-perm-accessibility",
                title: "Accessibility",
                description: "Needed for gesture and button remapping (event tap).",
                permission: Permission::Accessibility,
                status: if accessibility_granted { PermissionStatus::Granted } else { PermissionStatus::Denied },
            },
            PermissionRow {
                id: "main-perm-input-monitoring",
                title: "Input Monitoring",
                description: "Needed to read HID++ data, including Bluetooth-direct mice.",
                permission: Permission::InputMonitoring,
                status: input_monitoring,
            },
            PermissionRow {
                id: "main-perm-bluetooth",
                title: "Bluetooth",
                description: "Allows OpenLogi to use CoreBluetooth (not required for HID access).",
                permission: Permission::Bluetooth,
                status: bluetooth,
            },
        ],
{
    let rows = vec![
        PermissionRow {
            id: "main-perm-accessibility",
            title: "Accessibility",
            description: "Needed for gesture and button remapping (event tap).",
            permission: Permission::Accessibility,
            status: accessibility_status(accessibility_granted),
        },
        PermissionRow {
            id: "main-perm-input-monitoring",
            title: "Input Monitoring",
            description: "Needed to read HID++ data, including Bluetooth-direct mice.",
            permission: Permission::InputMonitoring,
            status: input_monitoring,
        },
        PermissionRow {
            id: "main-perm-bluetooth",
            title: "Bluetooth",
            description: "Allows OpenLogi to use CoreBluetooth (not required for HID access).",
            permission: Permission::Bluetooth,
            status: bluetooth,
        },
    ];
    assert(rows@ =~= seq![rows@[0], rows@[1], rows@[2]]);
    rows
}

/// Heading of an embedded settings page: its title and its one-line
/// description (message keys).
pub open spec fn spec_page_header(section: SettingsSection) -> (&'static str, &'static str) {
    match section {
        SettingsSection::General => ("General", "Basic OpenLogi behavior and startup preferences."),
        SettingsSection::Permissions => ("Permissions", "macOS privacy permissions used by OpenLogi."),
        SettingsSection::Language => ("Language", "Choose the interface language."),
    }
}

/// The title and description shown above the card of a settings page.
pub fn settings_page_header(section: SettingsSection) -> (header: (&'static str, &'static str))
    ensures
        header == spec_page_header(section),
{
    match section {
        SettingsSection::General => ("General", "Basic OpenLogi behavior and startup preferences."),
        SettingsSection::Permissions => ("Permissions", "macOS privacy permissions used by OpenLogi."),
        SettingsSection::Language => ("Language", "Choose the interface language."),
    }
}

} // verus!
