//! Verified core of the OpenLogi desktop front end: navigation, branding,
//! tray-menu state, device-detail tab rules, language selection, the action
//! picker's catalog grouping, and the app-icon surface repair.

pub mod branding;
pub mod device;
pub mod icon;
pub mod nav;
pub mod picker;
pub mod settings_pages;
pub mod text;
pub mod theme;
pub mod tray;
pub mod tray_row;
