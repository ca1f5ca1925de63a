use f1_fantasy::results::{
    classified_race_results, map_driver_numbers, match_constructor_results, race_results_from_rows,
    SessionResultRow, TeamStanding,
};
use f1_fantasy::scoring::RaceResult;
use f1_fantasy::worker::{
    is_finished, should_lock_for_qualifying, worker_step, WorkerAction, WorkerEvent, WorkerState,
};

#[test]
fn statuses() {
    assert!(is_finished(Some("Finished")));
    assert!(!is_finished(Some("Started")));
    assert!(!is_finished(None));
    assert!(should_lock_for_qualifying(false, Some("Started")));
    assert!(!should_lock_for_qualifying(false, Some("Completed")));
    assert!(!should_lock_for_qualifying(false, None));
    assert!(!should_lock_for_qualifying(true, Some("Started")));
}

#[test]
fn scoring_check_scores_a_finished_race_once() {
    let (s, a) = worker_step(WorkerState::Idle, &WorkerEvent::Started { race_weekend: true });
    assert_eq!(a, WorkerAction::LockTeamsAndFindRace);
    let (s, a) = worker_step(s, &WorkerEvent::RaceFound { race: Some((12, Some(9000))) });
    assert_eq!(a, WorkerAction::FetchSessionStatus { session_key: 9000 });
    let (s, a) = worker_step(s, &WorkerEvent::SessionStatus { status: Some("Started".to_string()) });
    assert_eq!(a, WorkerAction::CountScoredTeams { gp_id: 12 });
    let (s, a) = worker_step(s, &WorkerEvent::ScoredTeams { count: 0 });
    assert_eq!(a, WorkerAction::FetchSessionStatus { session_key: 9000 });
    let (s, a) = worker_step(s, &WorkerEvent::SessionStatus { status: Some("Finished".to_string()) });
    assert_eq!(a, WorkerAction::ScoreRace { gp_id: 12, session_key: 9000 });
    let (s, a) = worker_step(s, &WorkerEvent::ScoringDone);
    assert_eq!(a, WorkerAction::Finish { race_on: Some(false) });
    assert_eq!(s, WorkerState::Done);
}

#[test]
fn scoring_check_endings() {
    let (_, a) = worker_step(WorkerState::Idle, &WorkerEvent::Started { race_weekend: false });
    assert_eq!(a, WorkerAction::Finish { race_on: Some(false) });
    let (_, a) = worker_step(WorkerState::FindingRace, &WorkerEvent::RaceFound { race: Some((1, None)) });
    assert_eq!(a, WorkerAction::Finish { race_on: Some(false) });
    let (_, a) = worker_step(WorkerState::FindingRace, &WorkerEvent::RaceFound { race: None });
    assert_eq!(a, WorkerAction::Finish { race_on: Some(false) });
    let (_, a) = worker_step(
        WorkerState::CheckingRace { gp_id: 1, session_key: 2 },
        &WorkerEvent::SessionStatus { status: Some("Finished".to_string()) },
    );
    assert_eq!(a, WorkerAction::Finish { race_on: Some(false) });
    let (_, a) = worker_step(WorkerState::CountingScored { gp_id: 1, session_key: 2 }, &WorkerEvent::ScoredTeams { count: 3 });
    assert_eq!(a, WorkerAction::Finish { race_on: Some(true) });
    let (_, a) = worker_step(
        WorkerState::CheckingFinish { gp_id: 1, session_key: 2 },
        &WorkerEvent::SessionStatus { status: None },
    );
    assert_eq!(a, WorkerAction::Finish { race_on: Some(true) });
    let (_, a) = worker_step(WorkerState::FindingRace, &WorkerEvent::Failed);
    assert_eq!(a, WorkerAction::Finish { race_on: None });
}

fn row(p: Option<i64>, d: Option<i64>, f: Option<bool>, n: Option<bool>) -> SessionResultRow {
    SessionResultRow { position: p, driver_number: d, fastest_lap: f, dnf: n }
}

fn tuple(r: &RaceResult) -> (i64, i64, bool, bool) {
    (r.driver_id, r.position, r.fastest_lap, r.dnf)
}

#[test]
fn results_from_rows() {
    let rows = vec![row(Some(1), Some(33), Some(true), None), row(None, Some(44), None, Some(true)), row(Some(3), None, None, None)];
    let all: Vec<_> = race_results_from_rows(&rows).iter().map(tuple).collect();
    assert_eq!(all, vec![(33, 1, true, false), (44, 0, false, true), (0, 3, false, false)]);
    let classified: Vec<_> = classified_race_results(&rows).iter().map(tuple).collect();
    assert_eq!(classified, vec![(33, 1, true, false)]);
    let mapped: Vec<_> = map_driver_numbers(&race_results_from_rows(&rows), &vec![(7, 33), (8, 44), (9, 33)])
        .iter()
        .map(|r| r.driver_id)
        .collect();
    assert_eq!(mapped, vec![9, 8, 0]);
}

#[test]
fn constructors_match_by_name() {
    let standings = vec![
        TeamStanding { team_name: "Red Bull Racing".to_string(), position: 1 },
        TeamStanding { team_name: "RedBull".to_string(), position: 9 },
        TeamStanding { team_name: "Scuderia Ferrari".to_string(), position: 2 },
        TeamStanding { team_name: "Haas F1 Team".to_string(), position: 10 },
    ];
    let constructors = vec![(1, "Red Bull".to_string()), (2, "Ferrari".to_string()), (3, "McLaren".to_string())];
    let loose: Vec<_> = match_constructor_results(&standings, &constructors, true)
        .iter()
        .map(|c| (c.constructor_id, c.position))
        .collect();
    assert_eq!(loose, vec![(1, 1), (1, 9), (2, 2)]);
    let strict: Vec<_> = match_constructor_results(&standings, &constructors, false)
        .iter()
        .map(|c| (c.constructor_id, c.position))
        .collect();
    assert_eq!(strict, vec![(1, 1), (2, 2)]);
}
