use seogi::domain::status::{Status, StatusCategory};

#[test]
fn status_test_status_category_variant_count() {
    let all = [
        StatusCategory::Backlog,
        StatusCategory::Unstarted,
        StatusCategory::Started,
        StatusCategory::Completed,
        StatusCategory::Canceled,
    ];
    assert_eq!(all.len(), 5);
}

#[test]
fn status_test_status_category_as_str() {
    assert_eq!(StatusCategory::Backlog.as_str(), "backlog");
    assert_eq!(StatusCategory::Unstarted.as_str(), "unstarted");
    assert_eq!(StatusCategory::Started.as_str(), "started");
    assert_eq!(StatusCategory::Completed.as_str(), "completed");
    assert_eq!(StatusCategory::Canceled.as_str(), "canceled");
}

#[test]
fn status_test_status_category_from_str_valid() {
    assert_eq!(
        "backlog".parse::<StatusCategory>().unwrap(),
        StatusCategory::Backlog
    );
    assert_eq!(
        "unstarted".parse::<StatusCategory>().unwrap(),
        StatusCategory::Unstarted
    );
    assert_eq!(
        "started".parse::<StatusCategory>().unwrap(),
        StatusCategory::Started
    );
    assert_eq!(
        "completed".parse::<StatusCategory>().unwrap(),
        StatusCategory::Completed
    );
    assert_eq!(
        "canceled".parse::<StatusCategory>().unwrap(),
        StatusCategory::Canceled
    );
}

#[test]
fn status_test_status_category_display() {
    assert_eq!(StatusCategory::Backlog.to_string(), "backlog");
    assert_eq!(StatusCategory::Canceled.to_string(), "canceled");
}

#[test]
fn status_test_status_category_from_str_invalid() {
    assert!("invalid".parse::<StatusCategory>().is_err());
    assert!("".parse::<StatusCategory>().is_err());
    assert!("BACKLOG".parse::<StatusCategory>().is_err());
}

#[test]
fn test_status_new_id() {
    let status = Status::new("testing", StatusCategory::Started, 7).unwrap();
    assert_eq!(status.id().len(), 32);
    assert!(status.id().chars().all(|c| c.is_ascii_hexdigit()));
}

#[test]
fn test_status_new_fields() {
    let status = Status::new("testing", StatusCategory::Started, 7).unwrap();
    assert_eq!(status.name(), "testing");
    assert_eq!(status.category(), StatusCategory::Started);
    assert_eq!(status.position(), 7);
}

#[test]
fn test_status_new_empty_name() {
    assert!(Status::new("", StatusCategory::Started, 0).is_err());
}

#[test]
fn test_can_transition_backlog_to_unstarted() {
    assert!(StatusCategory::Backlog.can_transition_to(StatusCategory::Unstarted));
}

#[test]
fn test_can_transition_backlog_to_completed() {
    assert!(!StatusCategory::Backlog.can_transition_to(StatusCategory::Completed));
}

#[test]
fn test_can_transition_completed_to_started() {
    assert!(StatusCategory::Completed.can_transition_to(StatusCategory::Started));
}

#[test]
fn test_can_transition_canceled_to_backlog() {
    assert!(StatusCategory::Canceled.can_transition_to(StatusCategory::Backlog));
}

#[test]
fn test_can_transition_same_category() {
    assert!(StatusCategory::Started.can_transition_to(StatusCategory::Started));
    assert!(StatusCategory::Backlog.can_transition_to(StatusCategory::Backlog));
}

#[test]
fn test_allowed_transitions_backlog() {
    let allowed = StatusCategory::Backlog.allowed_transitions();
    assert_eq!(allowed.len(), 2);
    assert!(allowed.contains(&StatusCategory::Unstarted));
    assert!(allowed.contains(&StatusCategory::Canceled));
}

#[test]
fn test_allowed_transitions_started() {
    let allowed = StatusCategory::Started.allowed_transitions();
    assert_eq!(allowed.len(), 3);
    assert!(allowed.contains(&StatusCategory::Unstarted));
    assert!(allowed.contains(&StatusCategory::Completed));
    assert!(allowed.contains(&StatusCategory::Canceled));
}

// Own cases.

const ALL: [StatusCategory; 5] = [
    StatusCategory::Backlog,
    StatusCategory::Unstarted,
    StatusCategory::Started,
    StatusCategory::Completed,
    StatusCategory::Canceled,
];

#[test]
fn every_category_may_stay_and_never_lists_itself() {
    for c in ALL {
        assert!(c.can_transition_to(c));
        assert!(!c.allowed_transitions().contains(&c));
    }
}

#[test]
fn can_transition_agrees_with_allowed_list() {
    for from in ALL {
        for to in ALL {
            if from != to {
                assert_eq!(
                    from.can_transition_to(to),
                    from.allowed_transitions().contains(&to)
                );
            }
        }
    }
}

#[test]
fn category_text_round_trip() {
    for c in ALL {
        assert_eq!(StatusCategory::from_str(c.as_str()).unwrap(), c);
    }
}

#[test]
fn status_from_row_keeps_fields() {
    let s = Status::from_row("id-1".to_string(), "doing".to_string(), StatusCategory::Started, 3);
    assert_eq!(s.id(), "id-1");
    assert_eq!(s.name(), "doing");
    assert_eq!(s.category(), StatusCategory::Started);
    assert_eq!(s.position(), 3);
}

#[test]
fn status_new_empty_name_message() {
    let err = Status::new("", StatusCategory::Started, 0).unwrap_err();
    assert_eq!(err.to_string(), "Validation error: Status name must not be empty");
}

// The same checks on the category shared by both front ends.

#[test]
fn test_status_category_variant_count() {
    let all = [
        StatusCategory::Backlog,
        StatusCategory::Unstarted,
        StatusCategory::Started,
        StatusCategory::Completed,
        StatusCategory::Canceled,
    ];
    assert_eq!(all.len(), 5);
}

#[test]
fn test_status_category_as_str() {
    assert_eq!(StatusCategory::Backlog.as_str(), "backlog");
    assert_eq!(StatusCategory::Unstarted.as_str(), "unstarted");
    assert_eq!(StatusCategory::Started.as_str(), "started");
    assert_eq!(StatusCategory::Completed.as_str(), "completed");
    assert_eq!(StatusCategory::Canceled.as_str(), "canceled");
}

#[test]
fn test_status_category_from_str_valid() {
    assert_eq!(
        "backlog".parse::<StatusCategory>().unwrap(),
        StatusCategory::Backlog
    );
    assert_eq!(
        "unstarted".parse::<StatusCategory>().unwrap(),
        StatusCategory::Unstarted
    );
    assert_eq!(
        "started".parse::<StatusCategory>().unwrap(),
        StatusCategory::Started
    );
    assert_eq!(
        "completed".parse::<StatusCategory>().unwrap(),
        StatusCategory::Completed
    );
    assert_eq!(
        "canceled".parse::<StatusCategory>().unwrap(),
        StatusCategory::Canceled
    );
}

#[test]
fn test_status_category_display() {
    assert_eq!(StatusCategory::Backlog.to_string(), "backlog");
    assert_eq!(StatusCategory::Canceled.to_string(), "canceled");
}

#[test]
fn test_status_category_from_str_invalid() {
    assert!("invalid".parse::<StatusCategory>().is_err());
    assert!("".parse::<StatusCategory>().is_err());
    assert!("BACKLOG".parse::<StatusCategory>().is_err());
}
