use ansible_operator::plans::Timestamp;
use ansible_operator::utils::{
    generate_id, generate_id_with_length, upsert_condition, PlaybookPlanCondition,
};
use chrono::DateTime;

fn at(timestamp: &str) -> Option<Timestamp> {
    let time = DateTime::parse_from_rfc3339(timestamp).unwrap();
    Some(Timestamp {
        seconds: time.timestamp(),
        nanos: time.timestamp_subsec_nanos(),
        offset_seconds: time.offset().local_minus_utc(),
    })
}

fn condition(
    type_: &str,
    status: &str,
    reason: Option<&str>,
    message: Option<&str>,
    timestamp: &str,
) -> PlaybookPlanCondition {
    PlaybookPlanCondition {
        type_: type_.into(),
        status: status.into(),
        reason: reason.map(String::from),
        message: message.map(String::from),
        last_transition_time: at(timestamp),
    }
}

fn ready(
    status: &str,
    reason: Option<&str>,
    message: Option<&str>,
    timestamp: &str,
) -> PlaybookPlanCondition {
    condition("Ready", status, reason, message, timestamp)
}

fn sole(conditions: &[PlaybookPlanCondition]) -> &PlaybookPlanCondition {
    assert_eq!(conditions.len(), 1, "the condition is replaced, not appended");
    &conditions[0]
}

/// A message names which instance of a recurring reason is current, but restating it is not a
/// transition.
#[test]
fn a_new_message_under_an_unchanged_status_replaces_it_without_transitioning() {
    let mut conditions = vec![ready(
        "False",
        Some("InputsUnavailable"),
        Some("first failure"),
        "2026-08-26T10:00:00+02:00",
    )];

    upsert_condition(
        &mut conditions,
        ready(
            "False",
            Some("InputsUnavailable"),
            Some("second failure"),
            "2026-08-26T11:00:00+02:00",
        ),
    );

    let condition = sole(&conditions);
    assert_eq!(condition.message.as_deref(), Some("second failure"));
    assert_eq!(
        condition.last_transition_time,
        at("2026-08-26T10:00:00+02:00"),
        "the status did not change, so this is not a transition"
    );
}

#[test]
fn a_changed_status_transitions_to_the_new_timestamp() {
    let mut conditions = vec![ready(
        "False",
        Some("HostsOutdated"),
        Some("1/2 hosts on the current revision"),
        "2026-08-26T10:00:00+02:00",
    )];

    upsert_condition(
        &mut conditions,
        ready(
            "True",
            Some("HostsUpToDate"),
            Some("2/2 hosts on the current revision"),
            "2026-08-26T11:00:00+02:00",
        ),
    );

    let condition = sole(&conditions);
    assert_eq!(condition.status, "True");
    assert_eq!(condition.last_transition_time, at("2026-08-26T11:00:00+02:00"));
}

#[test]
fn an_identical_condition_is_left_untouched() {
    let mut conditions = vec![ready(
        "True",
        Some("JobRunning"),
        Some("the run's Job is still active"),
        "2026-08-26T10:00:00+02:00",
    )];

    upsert_condition(
        &mut conditions,
        ready(
            "True",
            Some("JobRunning"),
            Some("the run's Job is still active"),
            "2026-08-26T11:00:00+02:00",
        ),
    );

    assert_eq!(
        sole(&conditions).last_transition_time,
        at("2026-08-26T10:00:00+02:00")
    );
}

#[test]
fn a_condition_of_another_type_is_appended_beside_it() {
    let mut conditions = vec![ready("True", Some("JobRunning"), None, "2026-08-26T10:00:00+02:00")];

    upsert_condition(
        &mut conditions,
        condition(
            "Blocked",
            "True",
            Some("HostLockHeld"),
            None,
            "2026-08-26T11:00:00+02:00",
        ),
    );

    assert_eq!(conditions.len(), 2);
    assert_eq!(conditions[1].type_, "Blocked");
}

#[test]
fn writing_a_condition_twice_changes_nothing_the_second_time() {
    let mut conditions = vec![
        condition("Blocked", "True", None, None, "2026-08-26T09:00:00+02:00"),
        ready("False", Some("Old"), None, "2026-08-26T10:00:00+02:00"),
    ];
    let new = ready("True", Some("New"), Some("detail"), "2026-08-26T11:00:00+02:00");
    upsert_condition(&mut conditions, new.clone());
    let once = conditions.clone();
    upsert_condition(&mut conditions, new);
    assert_eq!(conditions, once);
    assert_eq!(conditions[0].type_, "Blocked");
}

#[test]
fn ids_are_digits_of_the_number_padded_or_cut_to_length() {
    assert_eq!(generate_id(0), "aaaaa");
    assert_eq!(generate_id(1), "aaaac");
    assert_eq!(generate_id(26), "aaaa9");
    assert_eq!(generate_id(27), "aaacb");
    assert_eq!(generate_id_with_length(27 * 27 + 5, 2), "bh");
    assert_eq!(generate_id_with_length(0, 8), "aaaaaaaa");
    assert_eq!(generate_id_with_length(u64::MAX, 14).len(), 14);
    assert_eq!(generate_id_with_length(7, 0), "");
}
