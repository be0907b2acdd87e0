use roomci::fault::ActiveFault;

const START_OF_2026_MS: i64 = 1_767_225_600_000;

fn at(seconds: i64) -> i64 {
    START_OF_2026_MS + seconds * 1000
}

fn fault(starts: i64, ends: Option<i64>) -> ActiveFault {
    ActiveFault {
        target: "mqtt.cloud".to_string(),
        fault_type: "offline".to_string(),
        starts_at: at(starts),
        ends_at: ends.map(at),
    }
}

#[test]
fn open_ended_fault_is_active_from_start_onward() {
    let active = fault(60, None);

    assert!(!active.is_active_at(at(0)));
    assert!(active.is_active_at(at(60)));
    assert!(active.is_active_at(at(3_600)));
}

#[test]
fn bounded_fault_includes_start_and_end_inclusive() {
    let active = fault(30, Some(90));

    assert!(active.is_active_at(at(30)));
    assert!(active.is_active_at(at(60)));
    assert!(active.is_active_at(at(90)));
}

#[test]
fn bounded_fault_is_inactive_before_start_and_after_end() {
    let active = fault(30, Some(90));

    assert!(!active.is_active_at(at(29)));
    assert!(!active.is_active_at(at(91)));
}

#[test]
fn fault_one_millisecond_past_its_end_is_inactive() {
    let active = fault(30, Some(90));

    assert!(!active.is_active_at(at(90) + 1));
    assert!(active.is_active_at(at(90) - 1));
}
