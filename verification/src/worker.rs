use vstd::prelude::*;
use crate::text::str_equal;

verus! {

/// Whether an OpenF1 session status reads "Finished".
pub fn is_finished(status: Option<&str>) -> (r: bool)
    ensures
        r == match status {
            Some(s) => s@ == "Finished"@,
            None => false,
        },
{
    match status {
        Some(s) => str_equal(s, "Finished"),
        None => false,
    }
}

/// Whether the teams of a Grand Prix are to be locked: its race has not
/// finished and its qualifying has a status other than "Completed".
pub fn should_lock_for_qualifying(race_finished: bool, qualifying_status: Option<&str>) -> (r: bool)
    ensures
        r == (!race_finished && match qualifying_status {
            Some(s) => s@ != "Completed"@,
            None => false,
        }),
{
    if race_finished {
        return false;
    }
    match qualifying_status {
        Some(s) => !str_equal(s, "Completed"),
        None => false,
    }
}

/// Where a scoring check stands.
#[derive(Clone, Copy, Debug, PartialEq, Eq)]
pub enum WorkerState {
    /// Nothing started yet.
    Idle,
    /// Looking for this weekend's race.
    FindingRace,
    /// Asking whether the race found is still on.
    CheckingRace { gp_id: i64, session_key: i64 },
    /// Asking whether the race was scored already.
    CountingScored { gp_id: i64, session_key: i64 },
    /// Asking whether the race has finished.
    CheckingFinish { gp_id: i64, session_key: i64 },
    /// Waiting for the race to be scored.
    Scoring { gp_id: i64, session_key: i64 },
    /// The check is over.
    Done,
}

/// What the outside world reports to a scoring check.
#[derive(Clone, Debug)]
pub enum WorkerEvent {
    /// The check starts; whether today is a race weekend.
    Started { race_weekend: bool },
    /// The nearest race within three days, with its race session key.
    RaceFound { race: Option<(i64, Option<i64>)> },
    /// The status OpenF1 gives the race session.
    SessionStatus { status: Option<String> },
    /// How many of the race's teams are locked with points.
    ScoredTeams { count: i64 },
    /// The race has been scored.
    ScoringDone,
    /// A request failed.
    Failed,
}

/// What a scoring check asks the outside world to do next.
#[derive(Clone, Copy, Debug, PartialEq, Eq)]
pub enum WorkerAction {
    /// Lock teams whose qualifying started, then look for the race.
    LockTeamsAndFindRace,
    /// Fetch the status of a session.
    FetchSessionStatus { session_key: i64 },
    /// Count the race's teams locked with points.
    CountScoredTeams { gp_id: i64 },
    /// Fetch the results and score the race.
    ScoreRace { gp_id: i64, session_key: i64 },
    /// End the check: `Some(true)` while a race is on, `Some(false)` when
    /// none is, `None` after a failure.
    Finish { race_on: Option<bool> },
}

/// One step of a scoring check. A check runs only on race weekends: it
/// locks teams and looks for the nearest race; without one, or without its
/// race session key, or when that race has finished, no race is on. A race
/// already scored keeps the worker active; an unfinished race keeps it
/// active; a finished one is scored, after which no race is on. A failure
/// ends the check with no verdict, as does an event the state does not
/// expect.
pub open spec fn worker_transition(state: WorkerState, event: WorkerEvent) -> (WorkerState, WorkerAction) {
    match (state, event) {
        (WorkerState::Idle, WorkerEvent::Started { race_weekend }) => if race_weekend {
            (WorkerState::FindingRace, WorkerAction::LockTeamsAndFindRace)
        } else {
            (WorkerState::Done, WorkerAction::Finish { race_on: Some(false) })
        },
        (WorkerState::FindingRace, WorkerEvent::RaceFound { race }) => match race {
            Some((gp_id, Some(session_key))) => (
                WorkerState::CheckingRace { gp_id, session_key },
                WorkerAction::FetchSessionStatus { session_key },
            ),
            _ => (WorkerState::Done, WorkerAction::Finish { race_on: Some(false) }),
        },
        (WorkerState::CheckingRace { gp_id, session_key }, WorkerEvent::SessionStatus { status }) => if (
        status matches Some(s) && s@ == "Finished"@) {
            (WorkerState::Done, WorkerAction::Finish { race_on: Some(false) })
        } else {
            (
                WorkerState::CountingScored { gp_id, session_key },
                WorkerAction::CountScoredTeams { gp_id },
            )
        },
        (WorkerState::CountingScored { gp_id, session_key }, WorkerEvent::ScoredTeams { count }) => if count > 0 {
            (WorkerState::Done, WorkerAction::Finish { race_on: Some(true) })
        } else {
            (
                WorkerState::CheckingFinish { gp_id, session_key },
                WorkerAction::FetchSessionStatus { session_key },
            )
        },
        (WorkerState::CheckingFinish { gp_id, session_key }, WorkerEvent::SessionStatus { status }) => if (
        status matches Some(s) && s@ == "Finished"@) {
            (WorkerState::Scoring { gp_id, session_key }, WorkerAction::ScoreRace { gp_id, session_key })
        } else {
            (WorkerState::Done, WorkerAction::Finish { race_on: Some(true) })
        },
        (WorkerState::Scoring { .. }, WorkerEvent::ScoringDone) => (
            WorkerState::Done,
            WorkerAction::Finish { race_on: Some(false) },
        ),
        _ => (WorkerState::Done, WorkerAction::Finish { race_on: None }),
    }
}

fn status_finished(status: &Option<String>) -> (r: bool)
    ensures
        r == (status matches Some(s) && s@ == "Finished"@),
{
    match status {
        Some(s) => str_equal(s.as_str(), "Finished"),
        None => false,
    }
}

/// Advances a scoring check by one event.
pub fn worker_step(state: WorkerState, event: &WorkerEvent) -> (r: (WorkerState, WorkerAction))
    ensures
        r == worker_transition(state, *event),
{
    match (state, event) {
        (WorkerState::Idle, WorkerEvent::Started { race_weekend }) => {
            if *race_weekend {
                (WorkerState::FindingRace, WorkerAction::LockTeamsAndFindRace)
            } else {
                (WorkerState::Done, WorkerAction::Finish { race_on: Some(false) })
            }
        },
        (WorkerState::FindingRace, WorkerEvent::RaceFound { race }) => match race {
            Some((gp_id, Some(session_key))) => (
                WorkerState::CheckingRace { gp_id: *gp_id, session_key: *session_key },
                WorkerAction::FetchSessionStatus { session_key: *session_key },
            ),
            _ => (WorkerState::Done, WorkerAction::Finish { race_on: Some(false) }),
        },
        (WorkerState::CheckingRace { gp_id, session_key }, WorkerEvent::SessionStatus { status }) => {
            if status_finished(status) {
                (WorkerState::Done, WorkerAction::Finish { race_on: Some(false) })
            } else {
                (
                    WorkerState::CountingScored { gp_id, session_key },
                    WorkerAction::CountScoredTeams { gp_id },
                )
            }
        },
        (WorkerState::CountingScored { gp_id, session_key }, WorkerEvent::ScoredTeams { count }) => {
            if *count > 0 {
                (WorkerState::Done, WorkerAction::Finish { race_on: Some(true) })
            } else {
                (
                    WorkerState::CheckingFinish { gp_id, session_key },
                    WorkerAction::FetchSessionStatus { session_key },
                )
            }
        },
        (WorkerState::CheckingFinish { gp_id, session_key }, WorkerEvent::SessionStatus { status }) => {
            if status_finished(status) {
                (WorkerState::Scoring { gp_id, session_key }, WorkerAction::ScoreRace { gp_id, session_key })
            } else {
                (WorkerState::Done, WorkerAction::Finish { race_on: Some(true) })
            }
        },
        (WorkerState::Scoring { .. }, WorkerEvent::ScoringDone) => (
            WorkerState::Done,
            WorkerAction::Finish { race_on: Some(false) },
        ),
        _ => (WorkerState::Done, WorkerAction::Finish { race_on: None }),
    }
}

/// A scoring check only ever scores a race that OpenF1 reported unfinished
/// and then finished, and that had no scored teams in between: scoring is
/// never asked for twice for a race already scored.
pub proof fn lemma_scores_only_unscored_finished_races(
    gp_id: i64,
    session_key: i64,
    count: i64,
    status: Option<String>,
)
    ensures
        worker_transition(
            WorkerState::CountingScored { gp_id, session_key },
            WorkerEvent::ScoredTeams { count },
        ).1 == (if count > 0 {
            WorkerAction::Finish { race_on: Some(true) }
        } else {
            WorkerAction::FetchSessionStatus { session_key }
        }),
        worker_transition(
            WorkerState::CheckingFinish { gp_id, session_key },
            WorkerEvent::SessionStatus { status },
        ).1 is ScoreRace <==> (status matches Some(s) && s@ == "Finished"@),
{
}

/// Checking whether the race found is still on: the check ends with no race
/// on exactly when OpenF1 reports the race session "Finished"; any other
/// answer, no status included, counts as a race in progress or to come, and
/// the check goes on to count that Grand Prix's scored teams.
pub proof fn lemma_unfinished_race_stays_on(gp_id: i64, session_key: i64, status: Option<String>)
    ensures
        worker_transition(
            WorkerState::CheckingRace { gp_id, session_key },
            WorkerEvent::SessionStatus { status },
        ).1 == (WorkerAction::Finish { race_on: Some(false) }) <==> (status is Some && status->0@
            == "Finished"@),
        !(status is Some && status->0@ == "Finished"@) ==> worker_transition(
            WorkerState::CheckingRace { gp_id, session_key },
            WorkerEvent::SessionStatus { status },
        ) == (WorkerState::CountingScored { gp_id, session_key }, WorkerAction::CountScoredTeams {
            gp_id,
        }),
        status is None ==> worker_transition(
            WorkerState::CheckingRace { gp_id, session_key },
            WorkerEvent::SessionStatus { status },
        ).1 == (WorkerAction::CountScoredTeams { gp_id }),
{
}

} // verus!
