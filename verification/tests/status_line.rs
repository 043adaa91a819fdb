use object0::sync::runtime::folder_sync_status_line;

#[test]
fn no_rule_is_active() {
    assert_eq!(folder_sync_status_line((0, 0, 0, 0)), "No active sync rules");
}

#[test]
fn syncing_goes_before_watching_and_paused() {
    assert_eq!(folder_sync_status_line((2, 5, 1, 0)), "Syncing 2 rule(s)...");
    assert_eq!(folder_sync_status_line((0, 5, 1, 0)), "Watching 5 rule(s)");
    assert_eq!(folder_sync_status_line((0, 0, 12, 0)), "Paused (12 rule(s))");
}

#[test]
fn errors_are_counted_behind_the_state() {
    assert_eq!(folder_sync_status_line((1, 0, 0, 3)), "Syncing 1 rule(s)... \u{2022} 3 error(s)");
    assert_eq!(folder_sync_status_line((0, 0, 0, 1)), "No active sync rules \u{2022} 1 error(s)");
}
