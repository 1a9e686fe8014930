use metri_engine::athena::{
    coerce_athena_value, parse_athena_timestamp, read_result_rows, AthenaCell, AthenaPoll, PollAction, PollOutcome,
};
use metri_engine::errors::ErrorCode;

fn state(s: &str) -> PollOutcome {
    PollOutcome::State { state: Some(s.to_string()), reason: None }
}

#[test]
fn polling_doubles_the_wait_up_to_five_seconds() {
    let mut p = AthenaPoll::new();
    let mut waits = Vec::new();
    for _ in 0..7 {
        match p.on_outcome(state("RUNNING"), "q1") {
            PollAction::Wait(ms) => waits.push(ms),
            other => panic!("expected a wait, got {other:?}"),
        }
    }
    assert_eq!(waits, vec![200, 400, 800, 1600, 3200, 5000, 5000]);
    assert_eq!(p.attempt, 7);
    assert!(matches!(p.on_outcome(state("SUCCEEDED"), "q1"), PollAction::Fetch));
}

#[test]
fn failures_and_timeouts_give_up() {
    let mut p = AthenaPoll::new();
    match p.on_outcome(
        PollOutcome::State { state: Some("FAILED".to_string()), reason: Some("boom".to_string()) },
        "q1",
    ) {
        PollAction::Fail(e) => {
            assert_eq!(e.code, ErrorCode::Aeg002);
            assert_eq!(e.detail, "Athena query fallida: boom");
        }
        other => panic!("expected a failure, got {other:?}"),
    }
    match p.on_outcome(PollOutcome::State { state: Some("CANCELLED".to_string()), reason: None }, "q1") {
        PollAction::Fail(e) => assert_eq!(e.detail, "Athena query fallida: sin razón"),
        other => panic!("expected a failure, got {other:?}"),
    }
    match p.on_outcome(PollOutcome::Failed("throttled".to_string()), "q1") {
        PollAction::Fail(e) => assert_eq!(e.detail, "Poll falló: throttled"),
        other => panic!("expected a failure, got {other:?}"),
    }
    let mut p = AthenaPoll::new();
    let mut last = None;
    for _ in 0..30 {
        last = Some(p.on_outcome(PollOutcome::State { state: None, reason: None }, "q9"));
        if matches!(last, Some(PollAction::TimeOut(..))) {
            break;
        }
    }
    assert_eq!(p.attempt, 29);
    match last {
        Some(PollAction::TimeOut(wait, e)) => {
            assert_eq!(wait, 5000);
            assert_eq!(e.code, ErrorCode::Aeg003);
            assert_eq!(e.detail, "Athena timeout después de 30 polls — execution_id: q9");
        }
        other => panic!("expected a timeout, got {other:?}"),
    }
}

#[test]
fn athena_timestamps_in_each_format() {
    assert_eq!(parse_athena_timestamp("2024-03-14 15:09:30.123"), Some(1_710_428_970));
    assert_eq!(parse_athena_timestamp("2024-03-14 15:09:30"), Some(1_710_428_970));
    assert_eq!(parse_athena_timestamp("2024-03-14T15:09:30.5"), Some(1_710_428_970));
    assert_eq!(parse_athena_timestamp("2024-03-14T15:09:30"), Some(1_710_428_970));
    // A bare date has no time of day, which a date-and-time reading needs.
    assert_eq!(parse_athena_timestamp("2024-03-14"), None);
    assert_eq!(parse_athena_timestamp("yesterday"), None);
}

#[test]
fn cells_are_read_by_column_type() {
    assert!(matches!(coerce_athena_value("", "integer"), AthenaCell::Null));
    assert!(matches!(coerce_athena_value("42", "INTEGER"), AthenaCell::Int(42)));
    assert!(matches!(coerce_athena_value("-7", "bigint"), AthenaCell::Int(-7)));
    assert!(matches!(coerce_athena_value("4x", "bigint"), AthenaCell::Text(t) if t == "4x"));
    assert!(matches!(coerce_athena_value("1.5", "double"), AthenaCell::DecimalText(t) if t == "1.5"));
    assert!(matches!(coerce_athena_value("TRUE", "boolean"), AthenaCell::Bool(true)));
    assert!(matches!(coerce_athena_value("yes", "boolean"), AthenaCell::Bool(false)));
    assert!(matches!(coerce_athena_value("2024-03-14 00:00:00", "date"), AthenaCell::Epoch(1_710_374_400)));
    assert!(matches!(coerce_athena_value("2024-03-14", "DATE"), AthenaCell::Text(t) if t == "2024-03-14"));
    assert!(matches!(coerce_athena_value("soon", "timestamp"), AthenaCell::Text(t) if t == "soon"));
    assert!(matches!(coerce_athena_value("abc", "varchar"), AthenaCell::Text(t) if t == "abc"));
}

fn texts(v: &[&str]) -> Vec<String> {
    v.iter().map(|s| s.to_string()).collect()
}

#[test]
fn result_rows_skip_the_header_and_read_each_column() {
    let names = texts(&["id", "n", "id"]);
    let types = texts(&["varchar", "integer"]);
    let rows = vec![
        vec![Some("id".to_string()), Some("n".to_string()), Some("id".to_string())],
        vec![Some("a".to_string()), Some("7".to_string()), Some("b".to_string()), Some("extra".to_string())],
        vec![None, Some("x7".to_string())],
    ];
    let out = read_result_rows(&names, &types, &rows);
    assert_eq!(out.len(), 2);
    // A repeated column name takes the later cell; a datum past the known
    // columns goes under the empty name, read as text.
    assert!(matches!(out[0].get("id"), Some(AthenaCell::Text(t)) if t == "b"));
    assert!(matches!(out[0].get("n"), Some(AthenaCell::Int(7))));
    assert!(matches!(out[0].get(""), Some(AthenaCell::Text(t)) if t == "extra"));
    assert_eq!(out[0].cells().len(), 3);
    assert!(matches!(out[1].get("id"), Some(AthenaCell::Null)));
    assert!(matches!(out[1].get("n"), Some(AthenaCell::Text(t)) if t == "x7"));
    assert!(read_result_rows(&names, &types, &Vec::new()).is_empty());
}
