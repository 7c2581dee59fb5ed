//! System-tray / status-item presence: the events its menu raises, which of
//! its fixed device rows show what, the install state, and Dock visibility.

use vstd::prelude::*;
use vstd::string::StringExecFns;
use tokio::sync::mpsc::UnboundedSender;
use crate::branding::{BuildInfo, display_name, spec_display_name};
use crate::device::DeviceKind;

verus! {

/// A request raised by clicking a status-bar menu item, or by a live
/// language switch asking the drain task to re-localize the whole menu.
#[derive(Debug, Clone, Copy, PartialEq, Eq, Structural)]
pub enum TrayEvent {
    Open,
    Quit,
    /// Re-title Open/Quit *and* the device line for the current locale.
    Refresh,
}

/// One connected device row shown in the tray menu.
pub struct TrayDeviceRow {
    pub name: String,
    pub kind: DeviceKind,
    pub battery_percent: Option<u8>,
}

/// How many device rows the tray menu can show at once.
pub const MAX_DEVICE_ROWS: usize = 8;

/// What one of the fixed device rows of the menu shows.
#[derive(Debug, Clone, Copy, PartialEq, Eq, Structural)]
pub enum RowSlot {
    /// The "No devices connected" placeholder.
    Placeholder,
    /// The device at this index of the row list.
    Device(usize),
    /// Nothing: the row is hidden.
    Hidden,
}

/// The rows for `count` connected devices: the placeholder alone when there
/// are none, else one row per device (up to the menu's capacity) and the
/// spare rows hidden.
pub open spec fn spec_row_slots(count: nat) -> Seq<RowSlot> {
    Seq::new(
        MAX_DEVICE_ROWS as nat,
        |i: int|
            if count == 0 {
                if i == 0 { RowSlot::Placeholder } else { RowSlot::Hidden }
            } else if i < count {
                RowSlot::Device(i as usize)
            } else {
                RowSlot::Hidden
            },
    )
}

/// The device rows for a list of connected devices.
pub fn device_row_slots(rows: &[TrayDeviceRow]) -> (slots: Vec<RowSlot>)
    ensures
        slots@ == spec_row_slots(rows@.len()),
{
    let n = rows.len();
    let mut slots: Vec<RowSlot> = Vec::new();
    let mut i: usize = 0;
    while i < MAX_DEVICE_ROWS
        invariant
            i <= MAX_DEVICE_ROWS,
            n == rows@.len(),
            slots@ == spec_row_slots(n as nat).take(i as int),
        decreases MAX_DEVICE_ROWS - i,
    {
        let slot = if n == 0 {
            if i == 0 { RowSlot::Placeholder } else { RowSlot::Hidden }
        } else if i < n {
            RowSlot::Device(i)
        } else {
            RowSlot::Hidden
        };
        slots.push(slot);
        assert(spec_row_slots(n as nat).take(i + 1) == spec_row_slots(n as nat).take(i as int).push(slot));
        i = i + 1;
    }
    assert(spec_row_slots(n as nat).take(MAX_DEVICE_ROWS as int) == spec_row_slots(n as nat));
    slots
}

/// The rows of a freshly built menu: the placeholder, spare rows hidden.
pub fn initial_row_slots() -> (slots: Vec<RowSlot>)
    ensures
        slots@ == spec_row_slots(0),
{
    device_row_slots(&[])
}

/// The menu always has its fixed number of rows; exactly the first
/// `min(count, capacity)` rows show devices, each device at most once and in
/// list order; the placeholder shows, in the first row, exactly when there is
/// no device; devices past the capacity are not shown.
pub proof fn lemma_row_slots_shape(count: nat)
    ensures
        spec_row_slots(count).len() == MAX_DEVICE_ROWS,
        forall|i: int| 0 <= i < MAX_DEVICE_ROWS ==>
            (#[trigger] spec_row_slots(count)[i] is Device <==> i < count),
        forall|i: int| 0 <= i < MAX_DEVICE_ROWS && #[trigger] spec_row_slots(count)[i] is Device ==>
            spec_row_slots(count)[i] == RowSlot::Device(i as usize),
        forall|i: int| 0 <= i < MAX_DEVICE_ROWS ==>
            (#[trigger] spec_row_slots(count)[i] == RowSlot::Placeholder <==> (count == 0 && i == 0)),
        forall|i: int| 0 <= i < MAX_DEVICE_ROWS ==>
            (#[trigger] spec_row_slots(count)[i] == RowSlot::Hidden <==> (if count == 0 { i != 0 } else { i >= count })),
{
}

/// The install state of the status item. `resources` tells whether the
/// item, its menu, its device rows and the event channel have been kept
/// (they are kept at the first install and stay for the process's life).
#[derive(Debug, Clone, Copy, PartialEq, Eq, Structural)]
pub struct TrayState {
    pub installed: bool,
    pub resources: bool,
}

impl TrayState {
    /// Nothing installed yet.
    pub fn new() -> (s: TrayState)
        ensures
            !s.installed,
            !s.resources,
            tray_wf(s),
    {
        TrayState { installed: false, resources: false }
    }
}

/// The state after an install, and whether the install proceeds.
pub open spec fn spec_install(s: TrayState) -> (TrayState, bool) {
    if s.installed {
        (s, false)
    } else {
        (TrayState { installed: true, resources: true }, true)
    }
}

/// The state after an uninstall, and whether the item is removed.
pub open spec fn spec_uninstall(s: TrayState) -> (TrayState, bool) {
    (TrayState { installed: false, resources: s.resources }, s.installed && s.resources)
}

/// Every state reached from `new` by installs and uninstalls: an installed
/// item always has its resources.
pub open spec fn tray_wf(s: TrayState) -> bool {
    s.installed ==> s.resources
}

/// Install the status item: proceeds only when it is not installed already
/// (a second install is a no-op); afterwards it is installed with its resources.
pub fn install(state: &mut TrayState) -> (proceed: bool)
    ensures
        (*final(state), proceed) == spec_install(*old(state)),
{
    if state.installed {
        return false;
    }
    state.installed = true;
    state.resources = true;
    true
}

/// Remove the status item from the system status bar during app teardown:
/// it is removed only when it is installed and was kept; it is not installed
/// afterwards.
pub fn uninstall(state: &mut TrayState) -> (remove: bool)
    ensures
        (*final(state), remove) == spec_uninstall(*old(state)),
{
    if !state.installed {
        return false;
    }
    state.installed = false;
    if !state.resources {
        return false;
    }
    true
}

/// Installing and uninstalling keep the state well formed; every install
/// that proceeds is undone by exactly one effective uninstall; a second
/// install, and a second uninstall, do nothing.
pub proof fn lemma_install_uninstall(s: TrayState)
    requires
        tray_wf(s),
    ensures
        tray_wf(spec_install(s).0),
        tray_wf(spec_uninstall(s).0),
        spec_install(s).0.installed,
        spec_uninstall(spec_install(s).0).1,
        !spec_install(spec_install(s).0).1,
        !spec_uninstall(spec_uninstall(s).0).1,
        spec_install(s).1 <==> !s.installed,
{
}

/// Show or hide the status-item icon without tearing it down: the icon's new
/// visibility, or nothing to do when no item has been kept.
pub fn set_visible(state: &TrayState, visible: bool) -> (r: Option<bool>)
    ensures
        r == if state.resources { Some(visible) } else { None },
{
    if !state.resources {
        return None;
    }
    Some(visible)
}

/// Update the device rows — one per connected device; nothing to do before
/// the menu exists.
pub fn set_device_rows(state: &TrayState, rows: &[TrayDeviceRow]) -> (slots: Option<Vec<RowSlot>>)
    ensures
        match slots {
            Some(s) => state.resources && s@ == spec_row_slots(rows@.len()),
            None => !state.resources,
        },
{
    if !state.resources {
        return None;
    }
    Some(device_row_slots(rows))
}

/// The localized words in front of the app name on the Open and Quit
/// items, as the current locale's catalogue gives them (`"Open "` and
/// `"Quit "` in English).
pub struct TrayLabels {
    pub open_prefix: String,
    pub quit_prefix: String,
}

impl TrayLabels {
    /// The English titles.
    pub fn english() -> (labels: TrayLabels)
        ensures
            labels.open_prefix@ == OPEN_PREFIX@,
            labels.quit_prefix@ == QUIT_PREFIX@,
    {
        TrayLabels { open_prefix: String::from_str(OPEN_PREFIX), quit_prefix: String::from_str(QUIT_PREFIX) }
    }
}

/// English prefix of the Open item.
pub const OPEN_PREFIX: &'static str = "Open ";

/// English prefix of the Quit item.
pub const QUIT_PREFIX: &'static str = "Quit ";

/// `Open <app name>`, in the locale of `labels`.
pub fn tray_open_label(labels: &TrayLabels, build: &BuildInfo) -> (label: String)
    ensures
        label@ == labels.open_prefix@ + spec_display_name(build)@,
{
    labels.open_prefix.clone().concat(display_name(build))
}

/// `Quit <app name>`, in the locale of `labels`.
pub fn tray_quit_label(labels: &TrayLabels, build: &BuildInfo) -> (label: String)
    ensures
        label@ == labels.quit_prefix@ + spec_display_name(build)@,
{
    labels.quit_prefix.clone().concat(display_name(build))
}

/// Re-title the Open/Quit items for the current locale, whose words
/// `labels` holds: the new titles, or nothing to do before the menu exists.
pub fn refresh_labels(state: &TrayState, labels: &TrayLabels, build: &BuildInfo) -> (titles: Option<(String, String)>)
    ensures
        match titles {
            Some((open, quit)) => state.resources
                && open@ == labels.open_prefix@ + spec_display_name(build)@
                && quit@ == labels.quit_prefix@ + spec_display_name(build)@,
            None => !state.resources,
        },
{
    if !state.resources {
        return None;
    }
    Some((tray_open_label(labels, build), tray_quit_label(labels, build)))
}

/// The activation policy of the application.
#[derive(Debug, Clone, Copy, PartialEq, Eq, Structural)]
pub enum ActivationPolicy {
    /// In the Dock and the menu bar.
    Regular,
    /// Only the status item.
    Accessory,
}

/// Show the app in the Dock + menu bar — called when a window opens.
pub fn show_in_dock() -> (p: ActivationPolicy)
    ensures
        p == ActivationPolicy::Regular,
{
    ActivationPolicy::Regular
}

/// Drop the app out of the Dock + menu bar, leaving only the status item.
pub fn hide_from_dock() -> (p: ActivationPolicy)
    ensures
        p == ActivationPolicy::Accessory,
{
    ActivationPolicy::Accessory
}

pub open spec fn spec_dock_policy(window_count: nat, hide_from_dock: bool, show_in_menu_bar: bool) -> ActivationPolicy {
    if window_count == 0 && hide_from_dock && show_in_menu_bar {
        ActivationPolicy::Accessory
    } else {
        ActivationPolicy::Regular
    }
}

/// Keep Dock visibility in step with user settings and open windows: leave
/// the Dock only when no window is open, the user asked to hide from the
/// Dock, and the menu-bar item is shown. Nothing to do before the app state
/// exists.
pub fn reconcile_dock_visibility(
    have_settings: bool,
    window_count: usize,
    hide_from_dock_setting: bool,
    show_in_menu_bar: bool,
) -> (p: Option<ActivationPolicy>)
    ensures
        p == if have_settings {
            Some(spec_dock_policy(window_count as nat, hide_from_dock_setting, show_in_menu_bar))
        } else {
            None
        },
{
    if !have_settings {
        return None;
    }
    if window_count == 0 && hide_from_dock_setting && show_in_menu_bar {
        Some(hide_from_dock())
    } else {
        Some(show_in_dock())
    }
}

/// The app never leaves the user without a way back: it drops out of the
/// Dock only while the menu-bar item is shown and no window is open.
pub proof fn lemma_hidden_only_with_menu_bar(window_count: nat, hide: bool, menu_bar: bool)
    ensures
        spec_dock_policy(window_count, hide, menu_bar) == ActivationPolicy::Accessory
            ==> menu_bar && window_count == 0,
        !hide ==> spec_dock_policy(window_count, hide, menu_bar) == ActivationPolicy::Regular,
{
}

/// What became of an event posted to the drain task.
#[derive(Debug, Clone, Copy, PartialEq, Eq, Structural)]
pub enum PostOutcome {
    /// No channel yet (the status item was never installed).
    NoChannel,
    /// Handed to the channel.
    Delivered,
    /// The receiving loop is gone; the event came back undelivered.
    Dropped(TrayEvent),
}

/// The sending half of tokio's unbounded channel.
#[verifier::external_type_specification]
#[verifier::external_body]
#[verifier::reject_recursive_types(T)]
pub struct ExUnboundedSender<T>(UnboundedSender<T>);

/// Calls `tokio::sync::mpsc::UnboundedSender::send`. Whether it succeeds
/// depends on whether the receiver is still alive, so nothing is stated of
/// success; on failure tokio hands the message back, which is stated.
#[verifier::external_body]
fn send_event(tx: &UnboundedSender<TrayEvent>, event: TrayEvent) -> (r: Result<(), TrayEvent>)
    ensures
        r matches Err(e) ==> e == event,
{
    match tx.send(event) {
        Ok(()) => Ok(()),
        Err(e) => Err(e.0),
    }
}

/// What became of an event, given what the channel send returned (`None`
/// when there was no channel to send on).
pub fn post_outcome(sent: Option<Result<(), TrayEvent>>) -> (outcome: PostOutcome)
    ensures
        outcome == match sent {
            None => PostOutcome::NoChannel,
            Some(Ok(())) => PostOutcome::Delivered,
            Some(Err(e)) => PostOutcome::Dropped(e),
        },
{
    match sent {
        None => PostOutcome::NoChannel,
        Some(Ok(())) => PostOutcome::Delivered,
        Some(Err(e)) => PostOutcome::Dropped(e),
    }
}

/// Hand `event` to the drain task over `tx`, if the channel exists. Without
/// a channel nothing is sent; with one, `event` itself is sent and the
/// outcome is what the send reports (the receiving loop may be gone, and
/// then `event` comes back).
pub fn post(tx: Option<&UnboundedSender<TrayEvent>>, event: TrayEvent) -> (outcome: PostOutcome)
    ensures
        (outcome == PostOutcome::NoChannel) <==> tx is None,
        outcome matches PostOutcome::Dropped(e) ==> e == event,
{
    let sent = match tx {
        Some(tx) => Some(send_event(tx, event)),
        None => None,
    };
    post_outcome(sent)
}

/// Ask the drain task to re-localize the whole menu after a live language switch.
pub fn request_refresh(tx: Option<&UnboundedSender<TrayEvent>>) -> (outcome: PostOutcome)
    ensures
        (outcome == PostOutcome::NoChannel) <==> tx is None,
        outcome matches PostOutcome::Dropped(e) ==> e == TrayEvent::Refresh,
{
    post(tx, TrayEvent::Refresh)
}

} // verus!
