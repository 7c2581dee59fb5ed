//! Contents of the tray menu's device rows: icon, name, battery readout and
//! the battery donut, and the registry that the donut's drawing reads.

use vstd::prelude::*;
use std::collections::HashMap;
use crate::device::DeviceKind;
use crate::text::{decimal, push_char, push_decimal};

verus! {

broadcast use vstd::std_specs::hash::group_hash_axioms;

pub open spec fn spec_device_symbol(kind: DeviceKind) -> &'static str {
    match kind {
        DeviceKind::Keyboard | DeviceKind::Numpad => "keyboard",
        DeviceKind::Mouse | DeviceKind::Trackball | DeviceKind::Touchpad => "computermouse",
        DeviceKind::Headset => "headphones",
        DeviceKind::Gamepad | DeviceKind::Joystick => "gamecontroller",
        _ => "computermouse",
    }
}

/// The row icon by kind: a keyboard for keyboards and numpads, headphones
/// for headsets, a game controller for gamepads and joysticks, and the mouse
/// for every other kind — mice, trackballs and touchpads included.
pub proof fn lemma_device_symbol_by_kind(kind: DeviceKind)
    ensures
        (kind == DeviceKind::Keyboard || kind == DeviceKind::Numpad) ==> spec_device_symbol(kind) == "keyboard",
        kind == DeviceKind::Headset ==> spec_device_symbol(kind) == "headphones",
        (kind == DeviceKind::Gamepad || kind == DeviceKind::Joystick) ==> spec_device_symbol(kind) == "gamecontroller",
        !(kind == DeviceKind::Keyboard || kind == DeviceKind::Numpad || kind == DeviceKind::Headset
            || kind == DeviceKind::Gamepad || kind == DeviceKind::Joystick) ==> spec_device_symbol(kind)
            == "computermouse",
{
}

/// SF Symbol name of the row icon for a device kind.
pub fn device_symbol(kind: DeviceKind) -> (symbol: &'static str)
    ensures
        symbol == spec_device_symbol(kind),
{
    match kind {
        DeviceKind::Keyboard | DeviceKind::Numpad => "keyboard",
        DeviceKind::Mouse | DeviceKind::Trackball | DeviceKind::Touchpad => "computermouse",
        DeviceKind::Headset => "headphones",
        DeviceKind::Gamepad | DeviceKind::Joystick => "gamecontroller",
        _ => "computermouse",
    }
}

/// Colour of the battery donut's filled arc.
#[derive(Debug, Clone, Copy, PartialEq, Eq, Structural)]
pub enum BatteryColor {
    Red,
    Yellow,
    Green,
}

pub open spec fn spec_battery_color(percent: u8) -> BatteryColor {
    if percent <= 20 {
        BatteryColor::Red
    } else if percent <= 50 {
        BatteryColor::Yellow
    } else {
        BatteryColor::Green
    }
}

/// Red up to 20 %, yellow up to 50 %, green above.
pub fn battery_color(percent: u8) -> (c: BatteryColor)
    ensures
        c == spec_battery_color(percent),
{
    if percent <= 20 {
        BatteryColor::Red
    } else if percent <= 50 {
        BatteryColor::Yellow
    } else {
        BatteryColor::Green
    }
}

/// A rank of the colours from worst to best.
pub open spec fn color_rank(c: BatteryColor) -> int {
    match c {
        BatteryColor::Red => 0,
        BatteryColor::Yellow => 1,
        BatteryColor::Green => 2,
    }
}

/// More charge never shows a worse colour.
pub proof fn lemma_battery_color_monotonic(a: u8, b: u8)
    requires
        a <= b,
    ensures
        color_rank(spec_battery_color(a)) <= color_rank(spec_battery_color(b)),
{
}

/// What a device row shows.
pub struct DeviceRowContent {
    /// SF Symbol of the icon.
    pub symbol: &'static str,
    /// The device name, in the primary label colour.
    pub name: String,
    /// Battery readout (`N%`); the label and donut are hidden without one.
    pub battery_text: Option<String>,
    /// Fill of the donut.
    pub donut_percent: Option<u8>,
}

/// The content of a device row: the kind's icon, the name, and — with a
/// battery reading — a `N%` label and a donut filled to that percentage.
pub fn device_row_content(name: &str, kind: DeviceKind, battery_percent: Option<u8>) -> (c: DeviceRowContent)
    ensures
        c.symbol == spec_device_symbol(kind),
        c.name@ == name@,
        c.donut_percent == battery_percent,
        match battery_percent {
            Some(p) => c.battery_text matches Some(t) && t@ == decimal(p as nat).push('%'),
            None => c.battery_text is None,
        },
{
    let battery_text = match battery_percent {
        Some(p) => {
            let mut t = String::new();
            push_decimal(&mut t, p as u64);
            push_char(&mut t, '%');
            Some(t)
        },
        None => None,
    };
    DeviceRowContent {
        symbol: device_symbol(kind),
        name: name.to_owned(),
        battery_text,
        donut_percent: battery_percent,
    }
}

/// The percentage each donut view draws, keyed by the view's address.
pub struct DonutRegistry {
    pub percents: HashMap<usize, Option<u8>>,
}

impl DonutRegistry {
    /// An empty registry: no donut draws anything.
    pub fn new() -> (r: DonutRegistry)
        ensures
            r.percents@ == Map::<usize, Option<u8>>::empty(),
    {
        DonutRegistry { percents: HashMap::new() }
    }

    /// Record what the donut at `view` shows (`None` hides the arc).
    pub fn set_percent(&mut self, view: usize, percent: Option<u8>)
        ensures
            final(self).percents@ == old(self).percents@.insert(view, percent),
    {
        self.percents.insert(view, percent);
    }

    /// The percentage the donut at `view` draws: nothing for a view never
    /// set, or set to no reading.
    pub fn percent_for(&self, view: usize) -> (p: Option<u8>)
        ensures
            p == (if self.percents@.contains_key(view) { self.percents@[view] } else { None }),
    {
        match self.percents.get(&view) {
            Some(p) => *p,
            None => None,
        }
    }
}

pub open spec fn spec_percent_for(m: Map<usize, Option<u8>>, view: usize) -> Option<u8> {
    if m.contains_key(view) { m[view] } else { None }
}

/// A donut draws what was last set for it, whatever was set for other views.
pub proof fn lemma_donut_read_after_write(m: Map<usize, Option<u8>>, view: usize, other: usize, percent: Option<u8>)
    ensures
        spec_percent_for(m.insert(view, percent), view) == percent,
        other != view ==> spec_percent_for(m.insert(view, percent), other) == spec_percent_for(m, other),
{
}

} // verus!
