use fastboot_flasher::gsi_rows::{flashing_message, GsiCliProgress, RowCommand};

fn open_row(length: u64, message: &str) -> RowCommand {
    RowCommand::OpenRow { length, message: message.to_string() }
}

#[test]
fn rows_start_with_a_total_of_at_least_one_byte() {
    assert_eq!(GsiCliProgress::new(0).overall_total, 1);
    let rows = GsiCliProgress::new(4096);
    assert_eq!(rows.overall_total, 4096);
    assert!(rows.current.is_none());
}

#[test]
fn starting_a_flash_opens_its_row_once() {
    let mut rows = GsiCliProgress::new(100);
    let first = rows.start_flash("system_a", "flash system_a", 4096);
    assert_eq!(first, vec![RowCommand::ExtendTotal { length: 4196 }, open_row(4096, "flash system_a")]);
    let again = rows.start_flash("system_a", "other", 1);
    assert!(again.is_empty());
    assert_eq!(rows.overall_total, 4196);
}

#[test]
fn progress_only_moves_a_row_forward_and_shows_speed() {
    let mut rows = GsiCliProgress::new(1);
    rows.start_flash("system_a", "flash system_a", 4096);
    assert_eq!(rows.update_flash("system_a", 1000, 4096, 0), vec![RowCommand::Advance { delta: 1000 }]);
    assert!(rows.update_flash("system_a", 500, 4096, 0).is_empty());
    assert_eq!(
        rows.update_flash("system_a", 1000, 4096, 2048),
        vec![RowCommand::SetMessage { message: "flash system_a @ 2.00 KiB/s".to_string() }]
    );
    assert_eq!(rows.current.as_ref().map(|r| r.position), Some(1000));
}

#[test]
fn progress_of_another_partition_closes_the_open_row_first() {
    let mut rows = GsiCliProgress::new(1);
    rows.start_flash("system_a", "flash system_a", 4096);
    rows.update_flash("system_a", 1000, 4096, 0);
    let commands = rows.update_flash("vbmeta_a", 100, 512, 0);
    assert_eq!(
        commands,
        vec![
            RowCommand::Advance { delta: 3096 },
            RowCommand::CloseRow { message: "flash system_a 512 B".to_string() },
            RowCommand::ExtendTotal { length: 4609 },
            open_row(512, "flash vbmeta_a (512 B)"),
            RowCommand::Advance { delta: 100 },
        ]
    );
}

#[test]
fn finishing_a_flash_fills_and_closes_its_row() {
    let mut rows = GsiCliProgress::new(1);
    rows.start_flash("vbmeta_a", "flash vbmeta_a", 4096);
    rows.update_flash("vbmeta_a", 4096, 4096, 0);
    assert_eq!(
        rows.finish_flash("vbmeta_a", 4096),
        vec![RowCommand::CloseRow { message: "flash vbmeta_a 4.00 KiB".to_string() }]
    );
    assert!(rows.current.is_none());

    let unopened = rows.finish_flash("product_a", 10);
    assert_eq!(
        unopened,
        vec![
            RowCommand::ExtendTotal { length: 4107 },
            open_row(10, "flash product_a (10 B)"),
            RowCommand::Advance { delta: 10 },
            RowCommand::CloseRow { message: "flash product_a 10 B".to_string() },
        ]
    );
    assert_eq!(rows.increment_overall(1), RowCommand::AdvanceTotal { delta: 1 });
}

#[test]
fn flashing_rows_name_the_image_and_its_size() {
    assert_eq!(
        flashing_message("system_a", "gsi.img", 1048576),
        "flash system_a <- gsi.img (1.00 MiB)"
    );
}
