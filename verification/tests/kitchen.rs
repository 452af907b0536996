use mealdesk::kitchen::{check_kot_status_change, kot_status_note, kot_transition_allowed, record_kot_print};
use mealdesk::status::KotStatus;

#[test]
fn test_kot_transitions() {
    let cases = vec![
        ("Pending", "Preparing", true),
        ("Preparing", "Ready", true),
        ("Ready", "Completed", true),
        ("Pending", "Ready", false),
        ("Preparing", "Completed", false),
        ("Completed", "Pending", false),
        ("Ready", "Preparing", false),
    ];

    for (from, to, expected) in cases {
        let is_valid = kot_transition_allowed(from, to);
        assert_eq!(
            is_valid, expected,
            "Transition from {} to {} should be {}",
            from, to, expected
        );
    }
}

#[test]
fn kot_transition_rejects_unknown_and_repeated_stages() {
    assert!(!kot_transition_allowed("Pending", "Pending"));
    assert!(!kot_transition_allowed("Completed", "Completed"));
    assert!(!kot_transition_allowed("pending", "Preparing"));
    assert!(!kot_transition_allowed("Pending", "preparing"));
    assert!(!kot_transition_allowed("", ""));
    assert!(!kot_transition_allowed("Pending", "Cancelled"));
}

#[test]
fn kot_lifecycle_walks_every_stage_once() {
    let stages = [KotStatus::Pending, KotStatus::Preparing, KotStatus::Ready, KotStatus::Completed];
    for (i, a) in stages.iter().enumerate() {
        for (j, b) in stages.iter().enumerate() {
            assert_eq!(kot_transition_allowed(a.as_str(), b.as_str()), j == i + 1);
        }
    }
}

#[test]
fn kot_status_change_message() {
    assert_eq!(check_kot_status_change("Ready", "Completed"), Ok(()));
    assert_eq!(
        check_kot_status_change("Ready", "Pending"),
        Err("Invalid KOT status transition from Ready to Pending".to_string())
    );
    let n = kot_status_note(7, "Pending", "Preparing");
    assert_eq!(n.action, "update_kot_status");
    assert_eq!(n.target_type, "kot");
    assert_eq!(n.target_id, Some(7));
    assert_eq!(n.details.as_deref(), Some("KOT status updated from Pending to Preparing"));
}

#[test]
fn kot_print_counts() {
    let first = record_kot_print(3, 0);
    assert_eq!(first.new_count, 1);
    assert_eq!(first.note.action, "kot_print");
    assert_eq!(first.note.target_type, "kot");
    assert_eq!(first.note.target_id, Some(3));
    assert_eq!(first.note.details.as_deref(), Some("First print of KOT"));
    let again = record_kot_print(3, 2);
    assert_eq!(again.new_count, 3);
    assert_eq!(again.note.action, "kot_reprint");
    assert_eq!(again.note.details.as_deref(), Some("Reprinted KOT. Previous print count: 2"));
}
