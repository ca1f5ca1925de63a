use f1_fantasy::qualifying::{qualifying_session_entries, QualifyingResultRow};
use f1_fantasy::sessions::{
    all_sessions_keyed, keyed_status, plan_after_fetch, plan_sessions, plan_season_key_sync, plan_session_key_updates,
    race_session_schedule, session_date_window, sessions_missing_keys, ErgastRaceSchedule,
    ExternalSession, FetchOutcome, Session, SessionSlot, SessionsPlan, SessionsStatus,
};

fn session(kind: &str, date: Option<&str>, key: Option<i64>) -> Session {
    Session {
        id: 1,
        race_id: "7".to_string(),
        session_type: kind.to_string(),
        date: date.map(|d| d.to_string()),
        session_key: key,
        meeting_key: key,
    }
}

fn external(name: Option<&str>, sk: Option<i64>, mk: Option<i64>, start: Option<&str>) -> ExternalSession {
    ExternalSession {
        session_name: name.map(|s| s.to_string()),
        session_key: sk,
        meeting_key: mk,
        date_start: start.map(|s| s.to_string()),
    }
}

#[test]
fn missing_keys_and_status() {
    let sessions = vec![
        session("FirstPractice", Some("2025-03-14"), Some(1)),
        session("Qualifying", Some("2025-03-15"), None),
        session("Race", None, None),
    ];
    assert_eq!(sessions_missing_keys(&sessions), vec!["Qualifying".to_string(), "Race".to_string()]);
    assert!(!all_sessions_keyed(&sessions));
    assert_eq!(keyed_status(&sessions), SessionsStatus::Partial);
    assert_eq!(keyed_status(&vec![session("Race", None, Some(3))]), SessionsStatus::Completed);
    assert_eq!(
        session_date_window(&sessions),
        Some(("2025-03-14".to_string(), "2025-03-14".to_string()))
    );
    assert_eq!(session_date_window(&vec![session("Race", None, None)]), None);
    assert_eq!(session_date_window(&vec![]), None);
}

#[test]
fn key_updates_only_for_missing_mapped_sessions() {
    let missing = vec!["Qualifying".to_string(), "Race".to_string()];
    let ext = vec![
        external(Some("Practice 1"), Some(10), Some(1), None),
        external(Some("Qualifying"), Some(11), Some(1), None),
        external(Some("Sprint"), Some(12), Some(1), None),
        external(Some("Race"), Some(13), None, None),
        external(None, Some(14), Some(1), None),
        external(Some("Race"), Some(15), Some(2), None),
    ];
    let updates = plan_session_key_updates(&missing, &ext);
    let got: Vec<(String, i64, i64)> = updates.into_iter().map(|u| (u.session_type, u.session_key, u.meeting_key)).collect();
    assert_eq!(got, vec![("Qualifying".to_string(), 11, 1), ("Race".to_string(), 15, 2)]);
}

#[test]
fn season_key_sync() {
    let ext = vec![
        external(Some("Race"), Some(9158), Some(1229), Some("2023-09-17T12:00:00+00:00")),
        external(Some("Sprint"), Some(1), Some(2), Some("2023-09-16T12:00:00+00:00")),
        external(Some("Practice 2"), Some(4294967297), Some(3), Some("2023-09-15")),
        external(Some("Practice 3"), Some(5), Some(6), None),
    ];
    let updates = plan_season_key_sync(&ext);
    assert_eq!(updates.len(), 2);
    assert_eq!(updates[0].session_type, "Race");
    assert_eq!(updates[0].session_key, 9158);
    assert_eq!(updates[0].meeting_key, 1229);
    assert_eq!(updates[0].date, "2023-09-17");
    assert_eq!(updates[1].session_type, "SecondPractice");
    assert_eq!(updates[1].session_key, 1);
    assert_eq!(updates[1].date, "2023-09-15");
}

fn slot(d: Option<&str>, t: Option<&str>) -> Option<SessionSlot> {
    Some(SessionSlot { date: d.map(|s| s.to_string()), time: t.map(|s| s.to_string()) })
}

#[test]
fn weekend_schedule() {
    let race = ErgastRaceSchedule {
        date: Some("2025-05-04".to_string()),
        time: Some("20:00:00Z".to_string()),
        first_practice: slot(Some("2025-05-02"), Some("16:30:00Z")),
        second_practice: None,
        third_practice: slot(Some("2025-05-03"), None),
        sprint_qualifying: slot(Some("2025-05-02"), Some("20:30:00Z")),
        sprint: slot(Some("2025-05-03"), Some("16:00:00Z")),
        qualifying: slot(Some("2025-05-03"), Some("20:00:00Z")),
    };
    let s = race_session_schedule(&race);
    let kinds: Vec<&str> = s.iter().map(|x| x.session_type.as_str()).collect();
    assert_eq!(kinds, vec!["FirstPractice", "SprintQualifying", "Sprint", "Qualifying", "Race"]);
    assert_eq!(s[4].date, "2025-05-04");
    assert_eq!(s[4].time, "20:00:00Z");
    let no_race_time = ErgastRaceSchedule { time: None, ..race };
    assert_eq!(race_session_schedule(&no_race_time).len(), 4);
}

#[test]
fn qualifying_entries_per_session() {
    let row = |n: &str, q1: Option<&str>, q2: Option<&str>, q3: Option<&str>| QualifyingResultRow {
        number: n.to_string(),
        code: "VER".to_string(),
        given_name: "Max".to_string(),
        family_name: "Verstappen".to_string(),
        constructor: "Red Bull".to_string(),
        q1: q1.map(|s| s.to_string()),
        q2: q2.map(|s| s.to_string()),
        q3: q3.map(|s| s.to_string()),
    };
    let rows = vec![row("1", Some("1:29.1"), Some(""), None), row("2", Some("1:30.0"), None, None)];
    let q1 = qualifying_session_entries(&rows, 1);
    assert_eq!(q1.len(), 2);
    assert_eq!(q1[0].driver_name, "Max Verstappen");
    assert_eq!(q1[1].time, "1:30.0");
    let q2 = qualifying_session_entries(&rows, 2);
    assert_eq!(q2.len(), 1);
    assert_eq!(q2[0].time, "");
    assert!(qualifying_session_entries(&rows, 3).is_empty());
}

#[test]
fn sessions_plan_decisions() {
    assert!(matches!(plan_sessions(&vec![]), SessionsPlan::NotFound));
    let keyed = vec![session("Race", Some("2025-03-16"), Some(9))];
    assert!(matches!(plan_sessions(&keyed), SessionsPlan::Completed));
    let undated = vec![session("Qualifying", None, None), session("Race", Some("2025-03-16"), Some(9))];
    assert!(matches!(plan_sessions(&undated), SessionsPlan::Scheduled));
    let partial = vec![
        session("Qualifying", Some("2025-03-15"), None),
        session("Race", Some("2025-03-16"), Some(9)),
    ];
    match plan_sessions(&partial) {
        SessionsPlan::Fetch { missing, start, end } => {
            assert_eq!(missing, vec!["Qualifying".to_string()]);
            assert_eq!((start.as_str(), end.as_str()), ("2025-03-15", "2025-03-16"));
        }
        other => panic!("unexpected plan {:?}", other),
    }
    let missing = vec!["Qualifying".to_string()];
    assert!(matches!(plan_after_fetch(&missing, None), FetchOutcome::Unavailable));
    assert!(matches!(plan_after_fetch(&missing, Some(&vec![])), FetchOutcome::NothingYet));
    let ext = vec![external(Some("Qualifying"), Some(5), Some(6), None), external(Some("Race"), Some(7), Some(6), None)];
    match plan_after_fetch(&missing, Some(&ext)) {
        FetchOutcome::Record(u) => {
            assert_eq!(u.len(), 1);
            assert_eq!((u[0].session_type.as_str(), u[0].session_key, u[0].meeting_key), ("Qualifying", 5, 6));
        }
        other => panic!("unexpected outcome {:?}", other),
    }
}
