use fastboot_flasher::device::{value_color, ValueColor};
use fastboot_flasher::ui::{device_info_from_vars, wipe_run_plan, UserdataClear};
use fastboot_flasher::vars::FastbootVars;

#[test]
fn value_colors_follow_the_row_label() {
    assert_eq!(value_color("unlocked", "YES"), ValueColor::Green);
    assert_eq!(value_color("unlocked", "no"), ValueColor::Yellow);
    assert_eq!(value_color("secure", "No"), ValueColor::Green);
    assert_eq!(value_color("secure", "yes"), ValueColor::Red);
    assert_eq!(value_color("userspace fastboot", "no"), ValueColor::Green);
    assert_eq!(value_color("userspace fastboot", "yes"), ValueColor::Grey);
    assert_eq!(value_color("slot", "a (unbootable=YES)"), ValueColor::Red);
    assert_eq!(value_color("slot", "b (successful=yes)"), ValueColor::Green);
    assert_eq!(value_color("slot", "b"), ValueColor::Grey);
    assert_eq!(value_color("current slot", "a"), ValueColor::Green);
    assert_eq!(value_color("max download", "256 MiB"), ValueColor::Cyan);
    assert_eq!(value_color("other", "x"), ValueColor::Grey);
}

#[test]
fn device_info_fills_missing_variables_with_defaults() {
    let mut vars = FastbootVars::new();
    vars.insert("serialno".to_string(), "ABC123".to_string());
    vars.insert("unlocked".to_string(), "yes".to_string());
    let info = device_info_from_vars(vars);
    assert_eq!(info.serial, "ABC123");
    assert_eq!(info.unlocked, "yes");
    assert_eq!(info.product, "");
    assert_eq!(info.slot, "unknown");
    assert_eq!(info.version, "");
    assert_eq!(info.all_vars.len(), 2);
}

#[test]
fn wipe_runs_flash_the_built_image_then_erase_metadata_and_cache() {
    let plan = wipe_run_plan(false, false, false, Some(4096)).unwrap();
    assert_eq!(plan.userdata, UserdataClear::FlashImage { bytes: 4096 });
    assert_eq!(plan.action_count, 3);
    assert_eq!(plan.total_bytes, 4098);
    assert_eq!(plan.metadata_before, 4096);
    assert_eq!(plan.cache_before, 4097);
    assert!(plan.erase_metadata && plan.erase_cache);
}

#[test]
fn wipe_runs_without_an_image_erase_only_with_the_fallback() {
    assert_eq!(wipe_run_plan(true, false, false, None), None);
    let plan = wipe_run_plan(true, false, true, None).unwrap();
    assert_eq!(plan.userdata, UserdataClear::Erase);
    assert_eq!(plan.action_count, 2);
    assert_eq!(plan.total_bytes, 2);
    assert!(!plan.erase_metadata);
    assert_eq!(plan.cache_before, 1);
    let empty = wipe_run_plan(true, true, false, Some(0)).unwrap();
    assert_eq!(empty.userdata, UserdataClear::FlashImage { bytes: 1 });
    assert_eq!(empty.total_bytes, 0);
}
