//! Product name and bundle identity — release vs dev builds.

use vstd::prelude::*;
use vstd::string::StringExecFns;
use crate::text::{ends_with, str_ends_with, str_eq};

verus! {

/// What identifies the running build: the identifier of the enclosing
/// application bundle (none for a raw binary or off macOS) and whether the
/// binary was compiled with debug assertions.
pub struct BuildInfo {
    pub bundle_identifier: Option<String>,
    pub debug_assertions: bool,
}

/// The throwaway dev `.app` (bundle identifier ending in `.dev`) or a debug binary.
pub open spec fn spec_is_dev_build(build: &BuildInfo) -> bool {
    ||| (match build.bundle_identifier {
        Some(id) => ends_with(id@, ".dev"@),
        None => false,
    })
    ||| build.debug_assertions
}

/// `true` when running the throwaway dev `.app` (or a debug raw binary).
pub fn is_dev_build(build: &BuildInfo) -> (dev: bool)
    ensures
        dev == spec_is_dev_build(build),
{
    let from_bundle = match &build.bundle_identifier {
        Some(id) => str_ends_with(id.as_str(), ".dev"),
        None => false,
    };
    from_bundle || build.debug_assertions
}

pub open spec fn spec_display_name(build: &BuildInfo) -> &'static str {
    if spec_is_dev_build(build) { "OpenLogi Dev" } else { "OpenLogi" }
}

/// User-visible application name.
pub fn display_name(build: &BuildInfo) -> (name: &'static str)
    ensures
        name == spec_display_name(build),
{
    if is_dev_build(build) { "OpenLogi Dev" } else { "OpenLogi" }
}

pub open spec fn spec_launch_agent_label(build: &BuildInfo) -> &'static str {
    if spec_is_dev_build(build) { "org.openlogi.openlogi.dev" } else { "org.openlogi.openlogi" }
}

/// LaunchAgent label — distinct for dev so login-item prefs don't clobber release.
pub fn launch_agent_label(build: &BuildInfo) -> (label: &'static str)
    ensures
        label == spec_launch_agent_label(build),
{
    if is_dev_build(build) { "org.openlogi.openlogi.dev" } else { "org.openlogi.openlogi" }
}

pub open spec fn spec_instance_lock_file(build: &BuildInfo) -> &'static str {
    if spec_is_dev_build(build) { "openlogi-dev.lock" } else { "openlogi.lock" }
}

/// Single-instance lock filename under the config dir.
pub fn instance_lock_file(build: &BuildInfo) -> (file: &'static str)
    ensures
        file == spec_instance_lock_file(build),
{
    if is_dev_build(build) { "openlogi-dev.lock" } else { "openlogi.lock" }
}

/// The separator between the application name and a section in a title.
pub const TITLE_SEPARATOR: &'static str = " — ";

/// `name`, or `name — suffix`.
pub open spec fn titled(name: Seq<char>, suffix: Option<Seq<char>>) -> Seq<char> {
    match suffix {
        Some(part) => name + TITLE_SEPARATOR@ + part,
        None => name,
    }
}

/// Window / menu title prefix, optionally with a section suffix.
pub fn window_title(build: &BuildInfo, suffix: Option<&str>) -> (title: String)
    ensures
        title@ == titled(spec_display_name(build)@, match suffix { Some(p) => Some(p@), None => None }),
{
    let name = String::from_str(display_name(build));
    match suffix {
        Some(part) => name.concat(TITLE_SEPARATOR).concat(part),
        None => name,
    }
}

/// Dev and release builds never share an identity: the name, the LaunchAgent
/// label and the lock file all switch together, and each dev value differs
/// from its release value, so a dev build never clobbers release state.
pub proof fn lemma_dev_identity_distinct(build: &BuildInfo)
    ensures
        spec_is_dev_build(build) <==> spec_display_name(build)@ == "OpenLogi Dev"@,
        spec_is_dev_build(build) <==> spec_launch_agent_label(build)@ == "org.openlogi.openlogi.dev"@,
        spec_is_dev_build(build) <==> spec_instance_lock_file(build)@ == "openlogi-dev.lock"@,
{
    reveal_strlit("OpenLogi Dev");
    reveal_strlit("OpenLogi");
    reveal_strlit("org.openlogi.openlogi.dev");
    reveal_strlit("org.openlogi.openlogi");
    reveal_strlit("openlogi-dev.lock");
    reveal_strlit("openlogi.lock");
    assert("OpenLogi Dev"@.len() != "OpenLogi"@.len());
    assert("org.openlogi.openlogi.dev"@.len() != "org.openlogi.openlogi"@.len());
    assert("openlogi-dev.lock"@.len() != "openlogi.lock"@.len());
}

/// Value of the bundle-assets switch that asks for an offline build.
pub const BUNDLE_ASSETS_ON: &'static str = "1";

/// Whether a packaged app carries the device assets inside it (an offline
/// build): exactly when the bundle-assets switch is set to `"1"`. Unset,
/// unreadable or any other value leaves them to be fetched at first launch.
pub fn bundles_device_assets(switch: Option<&str>) -> (bundled: bool)
    ensures
        bundled == (switch matches Some(v) && v@ == BUNDLE_ASSETS_ON@),
{
    match switch {
        Some(v) => str_eq(v, BUNDLE_ASSETS_ON),
        None => false,
    }
}

} // verus!
