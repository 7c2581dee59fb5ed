use openlogi_gui::branding::{
    BuildInfo, display_name, instance_lock_file, is_dev_build, launch_agent_label, window_title,
};

fn release() -> BuildInfo {
    BuildInfo { bundle_identifier: Some("org.openlogi.openlogi".to_string()), debug_assertions: false }
}

fn dev_bundle() -> BuildInfo {
    BuildInfo { bundle_identifier: Some("org.openlogi.openlogi.dev".to_string()), debug_assertions: false }
}

#[test]
fn dev_build_detection() {
    assert!(!is_dev_build(&release()));
    assert!(is_dev_build(&dev_bundle()));
    assert!(is_dev_build(&BuildInfo { bundle_identifier: None, debug_assertions: true }));
    assert!(!is_dev_build(&BuildInfo { bundle_identifier: None, debug_assertions: false }));
    assert!(!is_dev_build(&BuildInfo {
        bundle_identifier: Some("org.openlogi.dev.release".to_string()),
        debug_assertions: false,
    }));
    assert!(!is_dev_build(&BuildInfo { bundle_identifier: Some("dev".to_string()), debug_assertions: false }));
}

#[test]
fn release_identity() {
    let b = release();
    assert_eq!(display_name(&b), "OpenLogi");
    assert_eq!(launch_agent_label(&b), "org.openlogi.openlogi");
    assert_eq!(instance_lock_file(&b), "openlogi.lock");
}

#[test]
fn dev_identity_never_clobbers_release() {
    let d = dev_bundle();
    let r = release();
    assert_eq!(display_name(&d), "OpenLogi Dev");
    assert_eq!(launch_agent_label(&d), "org.openlogi.openlogi.dev");
    assert_eq!(instance_lock_file(&d), "openlogi-dev.lock");
    assert_ne!(launch_agent_label(&d), launch_agent_label(&r));
    assert_ne!(instance_lock_file(&d), instance_lock_file(&r));
}

#[test]
fn window_title_with_and_without_suffix() {
    assert_eq!(window_title(&release(), None), "OpenLogi");
    assert_eq!(window_title(&release(), Some("Settings")), "OpenLogi — Settings");
    assert_eq!(window_title(&dev_bundle(), Some("About")), "OpenLogi Dev — About");
}

use openlogi_gui::branding::bundles_device_assets;

#[test]
fn device_assets_bundled_only_on_one() {
    assert!(bundles_device_assets(Some("1")));
    assert!(!bundles_device_assets(None));
    assert!(!bundles_device_assets(Some("0")));
    assert!(!bundles_device_assets(Some("")));
    assert!(!bundles_device_assets(Some("1 ")));
    assert!(!bundles_device_assets(Some("true")));
}
