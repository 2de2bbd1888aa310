use fastboot_flasher::plan::PlanAction;
use fastboot_flasher::simulate::dry_run_action_events;
use fastboot_flasher::ui::{FlashEvent, FlashSummaryDto};

fn action(partition: &str, verb: &str, size: i64) -> PlanAction {
    PlanAction {
        action: verb.to_string(),
        partition: partition.to_string(),
        size,
        size_human: String::new(),
        safety_class: "boot_critical".to_string(),
        reason: "test".to_string(),
        image_path: None,
        image_exists: None,
    }
}

fn empty_summary() -> FlashSummaryDto {
    FlashSummaryDto { flash_count: 0, wipe_count: 0, skipped_count: 0, total_bytes: 0 }
}

#[test]
fn simulated_flash_reports_every_increment_and_completes() {
    let mut summary = empty_summary();
    let (events, after) =
        dry_run_action_events(&action("boot", "flash", 2048), 100, 10_000, &mut summary).unwrap();

    // 2048 bytes at a twelfth each (170 bytes): twelve full increments and one of 8.
    assert_eq!(events.len(), 28);
    assert_eq!(events[0], FlashEvent::PreparingImage { partition: "boot".to_string() });
    assert_eq!(events[1], FlashEvent::Overall { bytes: 270, total: 10_000 });
    assert_eq!(
        events[2],
        FlashEvent::Simulating {
            partition: "boot".to_string(),
            action: "flash".to_string(),
            bytes: 170,
            total: 2048,
            speed_bps: 1024 * 1024 * 1024,
        }
    );
    assert_eq!(events[25], FlashEvent::Overall { bytes: 2148, total: 10_000 });
    assert_eq!(
        events[26],
        FlashEvent::Simulating {
            partition: "boot".to_string(),
            action: "flash".to_string(),
            bytes: 2048,
            total: 2048,
            speed_bps: 1024 * 1024 * 1024,
        }
    );
    assert_eq!(events[27], FlashEvent::PartitionComplete { partition: "boot".to_string() });
    assert_eq!(after, 2148);
    assert_eq!(summary.flash_count, 1);
    assert_eq!(summary.wipe_count, 0);
}

#[test]
fn simulated_wipe_of_an_empty_partition_moves_one_byte() {
    let mut summary = empty_summary();
    let (events, after) =
        dry_run_action_events(&action("userdata", "wipe", -4), u64::MAX, 10, &mut summary).unwrap();

    assert_eq!(events.len(), 4);
    assert_eq!(events[0], FlashEvent::Erasing { partition: "userdata".to_string() });
    assert_eq!(events[1], FlashEvent::Overall { bytes: 10, total: 10 });
    assert_eq!(
        events[2],
        FlashEvent::Simulating {
            partition: "userdata".to_string(),
            action: "wipe".to_string(),
            bytes: 1,
            total: 1,
            speed_bps: 1024 * 1024 * 1024,
        }
    );
    assert_eq!(events[3], FlashEvent::EraseComplete { partition: "userdata".to_string() });
    assert_eq!(after, u64::MAX);
    assert_eq!(summary.wipe_count, 1);
    assert_eq!(summary.flash_count, 0);
}

#[test]
fn simulating_an_unknown_verb_is_refused() {
    let mut summary = empty_summary();
    let result = dry_run_action_events(&action("cache", "skip", 10), 0, 10, &mut summary);

    assert_eq!(result, Err("unsupported plan action: skip".to_string()));
    assert_eq!(summary, empty_summary());
}
