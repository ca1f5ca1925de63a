use vstd::prelude::*;
use crate::race_utils::{map_session_name, session_name_for};
use crate::text::{chars_of, parse_i64, parse_u32, parsed_i64, parsed_u32, str_equal, string_from_chars};

verus! {

/// A session of a race weekend as stored by this service.
#[derive(Clone, Debug)]
pub struct Session {
    pub id: i32,
    pub race_id: String,
    pub session_type: String,
    pub date: Option<String>,
    pub session_key: Option<i64>,
    pub meeting_key: Option<i64>,
}

/// A session as OpenF1 lists it; absent fields are `None`.
#[derive(Clone, Debug)]
pub struct ExternalSession {
    pub session_name: Option<String>,
    pub session_key: Option<i64>,
    pub meeting_key: Option<i64>,
    pub date_start: Option<String>,
}

/// The OpenF1 keys to record for a session type of a race.
#[derive(Clone, Debug)]
pub struct SessionKeyUpdate {
    pub session_type: String,
    pub session_key: i64,
    pub meeting_key: i64,
}

/// How complete the session keys of a race are.
#[derive(Clone, Copy, Debug, PartialEq, Eq)]
pub enum SessionsStatus {
    /// Every session has its OpenF1 key.
    Completed,
    /// The sessions are still to come.
    Scheduled,
    /// Some sessions lack their key.
    Partial,
}

/// Whether every session has its OpenF1 key.
pub open spec fn all_keyed(sessions: Seq<Session>) -> bool {
    forall|i: int| 0 <= i < sessions.len() ==> (#[trigger] sessions[i]).session_key is Some
}

/// Whether every session has its OpenF1 key.
pub fn all_sessions_keyed(sessions: &Vec<Session>) -> (r: bool)
    ensures
        r == all_keyed(sessions@),
{
    let mut i: usize = 0;
    while i < sessions.len()
        invariant
            i <= sessions@.len(),
            forall|j: int| 0 <= j < i ==> (#[trigger] sessions@[j]).session_key is Some,
        decreases sessions@.len() - i,
    {
        if sessions[i].session_key.is_none() {
            return false;
        }
        i = i + 1;
    }
    true
}

/// The status of a race's sessions once their keys are known: completed
/// when every session has its key, partial otherwise.
pub fn keyed_status(sessions: &Vec<Session>) -> (r: SessionsStatus)
    ensures
        r == (if all_keyed(sessions@) {
            SessionsStatus::Completed
        } else {
            SessionsStatus::Partial
        }),
{
    if all_sessions_keyed(sessions) {
        SessionsStatus::Completed
    } else {
        SessionsStatus::Partial
    }
}

/// The types of the sessions without an OpenF1 key, in order.
pub open spec fn missing_key_types(sessions: Seq<Session>) -> Seq<Seq<char>>
    decreases sessions.len(),
{
    if sessions.len() == 0 {
        seq![]
    } else {
        let prev = missing_key_types(sessions.drop_last());
        if sessions.last().session_key is None {
            prev.push(sessions.last().session_type@)
        } else {
            prev
        }
    }
}

/// The types of the sessions without an OpenF1 key, in order.
pub fn sessions_missing_keys(sessions: &Vec<Session>) -> (types: Vec<String>)
    ensures
        types@.len() == missing_key_types(sessions@).len(),
        forall|i: int| 0 <= i < types@.len() ==> (#[trigger] types@[i])@ == missing_key_types(sessions@)[i],
{
    let mut types: Vec<String> = Vec::new();
    let mut i: usize = 0;
    assert(sessions@.take(0) =~= Seq::<Session>::empty());
    while i < sessions.len()
        invariant
            i <= sessions@.len(),
            types@.len() == missing_key_types(sessions@.take(i as int)).len(),
            forall|j: int| 0 <= j < types@.len() ==> (#[trigger] types@[j])@ == missing_key_types(sessions@.take(i as int))[j],
        decreases sessions@.len() - i,
    {
        assert(sessions@.take(i + 1).drop_last() =~= sessions@.take(i as int));
        if sessions[i].session_key.is_none() {
            types.push(sessions[i].session_type.clone());
        }
        i = i + 1;
    }
    assert(sessions@.take(sessions@.len() as int) =~= sessions@);
    types
}

/// The date window of a race's sessions: the first session's date to the
/// last session's date (the first's when the last has none); `None` when
/// there is no first session or it has no date.
pub fn session_date_window(sessions: &Vec<Session>) -> (r: Option<(String, String)>)
    ensures
        match r {
            Some((start, end)) => sessions@.len() > 0 && (sessions@[0].date matches Some(d) && start@
                == d@ && end@ == match sessions@.last().date {
                Some(e) => e@,
                None => d@,
            }),
            None => sessions@.len() == 0 || sessions@[0].date is None,
        },
{
    if sessions.len() == 0 {
        return None;
    }
    let start = match &sessions[0].date {
        Some(d) => d.clone(),
        None => {
            return None;
        },
    };
    let end = match &sessions[sessions.len() - 1].date {
        Some(e) => e.clone(),
        None => start.clone(),
    };
    Some((start, end))
}

/// The first decision on the sessions of a race read from the database.
#[derive(Clone, Debug)]
pub enum SessionsPlan {
    /// No session: the race has none to answer.
    NotFound,
    /// Every session has its OpenF1 key: answer them as completed.
    Completed,
    /// Keys are missing and the first session has no date: the sessions are
    /// still to come.
    Scheduled,
    /// Ask OpenF1 for the sessions between the two dates to fill in the keys
    /// of the missing session types.
    Fetch { missing: Vec<String>, start: String, end: String },
}

/// The OpenF1 request planned for sessions that lack keys: the missing
/// types, and the dates of the first and last session (the first's when the
/// last has none).
pub open spec fn fetch_plan(sessions: Seq<Session>, missing: Seq<Seq<char>>, start: Seq<char>, end: Seq<char>) -> bool {
    &&& sessions.len() > 0
    &&& !all_keyed(sessions)
    &&& missing == missing_key_types(sessions)
    &&& sessions[0].date is Some
    &&& start == sessions[0].date->0@
    &&& end == match sessions.last().date {
        Some(e) => e@,
        None => start,
    }
}

/// Decides what to do with the sessions of a race: none is not found; all
/// keyed are completed, with no request to OpenF1; otherwise, without a date
/// on the first session they are scheduled, and with one OpenF1 is asked for
/// the sessions between the first and last dates.
pub fn plan_sessions(sessions: &Vec<Session>) -> (p: SessionsPlan)
    ensures
        (p is NotFound) <==> sessions@.len() == 0,
        (p is Completed) <==> sessions@.len() > 0 && all_keyed(sessions@),
        (p is Scheduled) <==> sessions@.len() > 0 && !all_keyed(sessions@) && sessions@[0].date is None,
        p matches SessionsPlan::Fetch { missing, start, end } ==> fetch_plan(
            sessions@,
            missing@.map_values(|s: String| s@),
            start@,
            end@,
        ),
{
    if sessions.len() == 0 {
        return SessionsPlan::NotFound;
    }
    if all_sessions_keyed(sessions) {
        return SessionsPlan::Completed;
    }
    let missing = sessions_missing_keys(sessions);
    match session_date_window(sessions) {
        None => SessionsPlan::Scheduled,
        Some((start, end)) => {
            assert(missing@.map_values(|s: String| s@) =~= missing_key_types(sessions@));
            SessionsPlan::Fetch { missing, start, end }
        },
    }
}

/// What follows the OpenF1 answer for sessions missing their keys.
#[derive(Clone, Debug)]
pub enum FetchOutcome {
    /// OpenF1 could not be reached.
    Unavailable,
    /// OpenF1 lists no session yet: the sessions are still to come.
    NothingYet,
    /// Record these keys.
    Record(Vec<SessionKeyUpdate>),
}

/// Decides on the OpenF1 answer: no answer means OpenF1 is unavailable, an
/// empty list that nothing is known yet, and otherwise the key updates for
/// the missing types are recorded.
pub fn plan_after_fetch(missing: &Vec<String>, external: Option<&Vec<ExternalSession>>) -> (o: FetchOutcome)
    ensures
        (o is Unavailable) <==> external is None,
        (o is NothingYet) <==> (external is Some && external->0@.len() == 0),
        o matches FetchOutcome::Record(updates) ==> (external is Some && external->0@.len() > 0
            && updates@.len() == key_updates(missing@.map_values(|s: String| s@), external->0@).len()
            && forall|i: int|
            0 <= i < updates@.len() ==> ((#[trigger] updates@[i]).session_type@, updates@[i].session_key,
            updates@[i].meeting_key) == key_updates(missing@.map_values(|s: String| s@), external->0@)[i]),
{
    match external {
        None => FetchOutcome::Unavailable,
        Some(e) => {
            if e.len() == 0 {
                FetchOutcome::NothingYet
            } else {
                FetchOutcome::Record(plan_session_key_updates(missing, e))
            }
        },
    }
}

/// The key update that an OpenF1 session yields for sessions missing their
/// key: its name maps to one of the missing types and it has both keys.
pub open spec fn key_update_for(missing: Seq<Seq<char>>, e: ExternalSession) -> Option<
    (Seq<char>, i64, i64),
> {
    match e.session_name {
        Some(name) => match session_name_for(name@) {
            Some(mapped) => if missing.contains(mapped) && e.session_key is Some
                && e.meeting_key is Some {
                Some((mapped, e.session_key->0, e.meeting_key->0))
            } else {
                None
            },
            None => None,
        },
        None => None,
    }
}

/// The key updates of the OpenF1 sessions, in order.
pub open spec fn key_updates(missing: Seq<Seq<char>>, external: Seq<ExternalSession>) -> Seq<
    (Seq<char>, i64, i64),
>
    decreases external.len(),
{
    if external.len() == 0 {
        seq![]
    } else {
        let prev = key_updates(missing, external.drop_last());
        match key_update_for(missing, external.last()) {
            Some(u) => prev.push(u),
            None => prev,
        }
    }
}

fn contains_text(list: &Vec<String>, text: &str) -> (r: bool)
    ensures
        r == exists|i: int| 0 <= i < list@.len() && (#[trigger] list@[i])@ == text@,
{
    let mut i: usize = 0;
    while i < list.len()
        invariant
            i <= list@.len(),
            forall|j: int| 0 <= j < i ==> (#[trigger] list@[j])@ != text@,
        decreases list@.len() - i,
    {
        if str_equal(list[i].as_str(), text) {
            return true;
        }
        i = i + 1;
    }
    false
}

/// The OpenF1 keys to record for a race's sessions that lack them: for each
/// OpenF1 session, in order, whose name maps to a missing session type and
/// which has both a session and a meeting key.
pub fn plan_session_key_updates(missing: &Vec<String>, external: &Vec<ExternalSession>) -> (updates: Vec<
    SessionKeyUpdate,
>)
    ensures
        updates@.len() == key_updates(missing@.map_values(|s: String| s@), external@).len(),
        forall|i: int|
            0 <= i < updates@.len() ==> ((#[trigger] updates@[i]).session_type@, updates@[i].session_key,
            updates@[i].meeting_key) == key_updates(missing@.map_values(|s: String| s@), external@)[i],
{
    let ghost ms = missing@.map_values(|s: String| s@);
    let mut updates: Vec<SessionKeyUpdate> = Vec::new();
    let mut i: usize = 0;
    assert(external@.take(0) =~= Seq::<ExternalSession>::empty());
    while i < external.len()
        invariant
            ms == missing@.map_values(|s: String| s@),
            i <= external@.len(),
            updates@.len() == key_updates(ms, external@.take(i as int)).len(),
            forall|j: int|
                0 <= j < updates@.len() ==> ((#[trigger] updates@[j]).session_type@, updates@[j].session_key,
                updates@[j].meeting_key) == key_updates(ms, external@.take(i as int))[j],
        decreases external@.len() - i,
    {
        assert(external@.take(i + 1).drop_last() =~= external@.take(i as int));
        let e = &external[i];
        if let Some(name) = &e.session_name {
            if let Some(mapped) = map_session_name(name.as_str()) {
                let present = contains_text(missing, mapped);
                proof {
                    if present {
                        let k = choose|k: int| 0 <= k < missing@.len() && (#[trigger] missing@[k])@ == mapped@;
                        assert(ms[k] == mapped@);
                    } else {
                        assert forall|k: int| 0 <= k < ms.len() implies ms[k] != mapped@ by {
                            assert(ms[k] == missing@[k]@);
                        }
                    }
                }
                if present {
                    match (e.session_key, e.meeting_key) {
                        (Some(sk), Some(mk)) => {
                            let ghost before = updates@;
                            updates.push(SessionKeyUpdate { session_type: mapped.to_owned(), session_key: sk, meeting_key: mk });
                        },
                        _ => {},
                    }
                }
            }
        }
        i = i + 1;
    }
    assert(external@.take(external@.len() as int) =~= external@);
    updates
}

/// The characters of `s` before its first 'T' (all of them when it has none).
pub open spec fn before_first_t(s: Seq<char>) -> Seq<char>
    decreases s.len(),
{
    if s.len() == 0 {
        s
    } else if s[0] == 'T' {
        seq![]
    } else {
        seq![s[0]] + before_first_t(s.drop_first())
    }
}

/// The date part of an ISO 8601 date-time: what precedes the first 'T'.
pub fn date_part(date_time: &str) -> (d: String)
    ensures
        d@ == before_first_t(date_time@),
{
    let cs = chars_of(date_time);
    let mut out: Vec<char> = Vec::new();
    let mut i: usize = 0;
    assert(cs@.skip(0) =~= cs@);
    while i < cs.len() && cs[i] != 'T'
        invariant
            i <= cs@.len(),
            cs@ == date_time@,
            out@ + before_first_t(cs@.skip(i as int)) == before_first_t(cs@),
        decreases cs@.len() - i,
    {
        assert(cs@.skip(i as int).drop_first() =~= cs@.skip(i + 1));
        assert(before_first_t(cs@.skip(i as int)) == seq![cs@[i as int]] + before_first_t(cs@.skip(i + 1)));
        out.push(cs[i]);
        i = i + 1;
        assert(out@ + before_first_t(cs@.skip(i as int)) =~= before_first_t(cs@));
    }
    assert(before_first_t(cs@.skip(i as int)) =~= Seq::<char>::empty());
    assert(out@ =~= before_first_t(cs@));
    string_from_chars(&out)
}

/// OpenF1 keys to record for the session of a type held on a date.
#[derive(Clone, Debug)]
pub struct DatedKeyUpdate {
    pub session_type: String,
    pub session_key: i32,
    pub meeting_key: i32,
    pub date: String,
}

/// The dated key update an OpenF1 session yields: it has both keys, a name
/// that maps to a session type, and a start.
pub open spec fn dated_update_for(e: ExternalSession) -> Option<(Seq<char>, i32, i32, Seq<char>)> {
    if e.session_key is Some && e.meeting_key is Some && e.session_name is Some
        && e.date_start is Some {
        match session_name_for(e.session_name->0@) {
            Some(mapped) => Some(
                (
                    mapped,
                    e.session_key->0 as i32,
                    e.meeting_key->0 as i32,
                    before_first_t(e.date_start->0@),
                ),
            ),
            None => None,
        }
    } else {
        None
    }
}

/// The dated key updates of the OpenF1 sessions, in order.
pub open spec fn dated_updates(external: Seq<ExternalSession>) -> Seq<(Seq<char>, i32, i32, Seq<char>)>
    decreases external.len(),
{
    if external.len() == 0 {
        seq![]
    } else {
        let prev = dated_updates(external.drop_last());
        match dated_update_for(external.last()) {
            Some(u) => prev.push(u),
            None => prev,
        }
    }
}

/// The OpenF1 keys to record for a season's sessions: for each OpenF1
/// session, in order, with both keys, a name that maps to a session type and
/// a start, the keys (truncated to `i32`) for that type on the start's date.
pub fn plan_season_key_sync(external: &Vec<ExternalSession>) -> (updates: Vec<DatedKeyUpdate>)
    ensures
        updates@.len() == dated_updates(external@).len(),
        forall|i: int|
            0 <= i < updates@.len() ==> ((#[trigger] updates@[i]).session_type@, updates@[i].session_key,
            updates@[i].meeting_key, updates@[i].date@) == dated_updates(external@)[i],
{
    let mut updates: Vec<DatedKeyUpdate> = Vec::new();
    let mut i: usize = 0;
    assert(external@.take(0) =~= Seq::<ExternalSession>::empty());
    while i < external.len()
        invariant
            i <= external@.len(),
            updates@.len() == dated_updates(external@.take(i as int)).len(),
            forall|j: int|
                0 <= j < updates@.len() ==> ((#[trigger] updates@[j]).session_type@, updates@[j].session_key,
                updates@[j].meeting_key, updates@[j].date@) == dated_updates(external@.take(i as int))[j],
        decreases external@.len() - i,
    {
        assert(external@.take(i + 1).drop_last() =~= external@.take(i as int));
        let e = &external[i];
        match (e.session_key, e.meeting_key, &e.session_name, &e.date_start) {
            (Some(sk), Some(mk), Some(name), Some(ds)) => {
                if let Some(mapped) = map_session_name(name.as_str()) {
                    let date = date_part(ds.as_str());
                    #[verifier::truncate]
                    let sk32 = sk as i32;
                    #[verifier::truncate]
                    let mk32 = mk as i32;
                    updates.push(DatedKeyUpdate { session_type: mapped.to_owned(), session_key: sk32, meeting_key: mk32, date });
                }
            },
            _ => {},
        }
        i = i + 1;
    }
    assert(external@.take(external@.len() as int) =~= external@);
    updates
}

/// The date and time of one session of a race weekend, as Ergast lists it.
#[derive(Clone, Debug)]
pub struct SessionSlot {
    pub date: Option<String>,
    pub time: Option<String>,
}

/// The schedule of a race weekend as Ergast lists it: the race's own date
/// and time, and the other sessions it lists.
#[derive(Clone, Debug)]
pub struct ErgastRaceSchedule {
    pub date: Option<String>,
    pub time: Option<String>,
    pub first_practice: Option<SessionSlot>,
    pub second_practice: Option<SessionSlot>,
    pub third_practice: Option<SessionSlot>,
    pub sprint_qualifying: Option<SessionSlot>,
    pub sprint: Option<SessionSlot>,
    pub qualifying: Option<SessionSlot>,
}

/// A session to store: its type, date and time.
#[derive(Clone, Debug)]
pub struct ScheduledSession {
    pub session_type: String,
    pub date: String,
    pub time: String,
}

/// The session of type `name` held at the slot, when both its date and time
/// are known.
pub open spec fn slot_entry(name: Seq<char>, slot: Option<SessionSlot>) -> Seq<(Seq<char>, Seq<char>, Seq<char>)> {
    match slot {
        Some(s) => if s.date is Some && s.time is Some {
            seq![(name, s.date->0@, s.time->0@)]
        } else {
            seq![]
        },
        None => seq![],
    }
}

/// The sessions of a race weekend to store, in the order first practice,
/// second practice, third practice, sprint qualifying, sprint, qualifying,
/// race; each only when its date and time are both known.
pub open spec fn weekend_sessions(r: ErgastRaceSchedule) -> Seq<(Seq<char>, Seq<char>, Seq<char>)> {
    slot_entry("FirstPractice"@, r.first_practice) + slot_entry("SecondPractice"@, r.second_practice)
        + slot_entry("ThirdPractice"@, r.third_practice) + slot_entry(
        "SprintQualifying"@,
        r.sprint_qualifying,
    ) + slot_entry("Sprint"@, r.sprint) + slot_entry("Qualifying"@, r.qualifying) + slot_entry(
        "Race"@,
        Some(SessionSlot { date: r.date, time: r.time }),
    )
}

fn push_slot(
    out: &mut Vec<ScheduledSession>,
    name: &str,
    slot: &Option<SessionSlot>,
    Ghost(spec_out): Ghost<Seq<(Seq<char>, Seq<char>, Seq<char>)>>,
)
    requires
        old(out)@.len() == spec_out.len(),
        forall|i: int| 0 <= i < spec_out.len() ==> ((#[trigger] old(out)@[i]).session_type@, old(out)@[i].date@, old(out)@[i].time@) == spec_out[i],
    ensures
        final(out)@.len() == (spec_out + slot_entry(name@, *slot)).len(),
        forall|i: int| 0 <= i < final(out)@.len() ==> ((#[trigger] final(out)@[i]).session_type@, final(out)@[i].date@, final(out)@[i].time@) == (spec_out + slot_entry(name@, *slot))[i],
{
    match slot {
        Some(s) => {
            match (&s.date, &s.time) {
                (Some(d), Some(t)) => {
                    out.push(ScheduledSession { session_type: name.to_owned(), date: d.clone(), time: t.clone() });
                },
                _ => {},
            }
        },
        None => {},
    }
}

/// The sessions of a race weekend to store: first practice, second
/// practice, third practice, sprint qualifying, sprint, qualifying and race,
/// each only when its date and time are both known.
pub fn race_session_schedule(r: &ErgastRaceSchedule) -> (sessions: Vec<ScheduledSession>)
    ensures
        sessions@.len() == weekend_sessions(*r).len(),
        forall|i: int| 0 <= i < sessions@.len() ==> ((#[trigger] sessions@[i]).session_type@, sessions@[i].date@, sessions@[i].time@) == weekend_sessions(*r)[i],
{
    let mut out: Vec<ScheduledSession> = Vec::new();
    let ghost s0 = Seq::<(Seq<char>, Seq<char>, Seq<char>)>::empty();
    push_slot(&mut out, "FirstPractice", &r.first_practice, Ghost(s0));
    let ghost s1 = s0 + slot_entry("FirstPractice"@, r.first_practice);
    push_slot(&mut out, "SecondPractice", &r.second_practice, Ghost(s1));
    let ghost s2 = s1 + slot_entry("SecondPractice"@, r.second_practice);
    push_slot(&mut out, "ThirdPractice", &r.third_practice, Ghost(s2));
    let ghost s3 = s2 + slot_entry("ThirdPractice"@, r.third_practice);
    push_slot(&mut out, "SprintQualifying", &r.sprint_qualifying, Ghost(s3));
    let ghost s4 = s3 + slot_entry("SprintQualifying"@, r.sprint_qualifying);
    push_slot(&mut out, "Sprint", &r.sprint, Ghost(s4));
    let ghost s5 = s4 + slot_entry("Sprint"@, r.sprint);
    push_slot(&mut out, "Qualifying", &r.qualifying, Ghost(s5));
    let ghost s6 = s5 + slot_entry("Qualifying"@, r.qualifying);
    let race = Some(SessionSlot { date: r.date.clone(), time: r.time.clone() });
    push_slot(&mut out, "Race", &race, Ghost(s6));
    assert(s6 + slot_entry("Race"@, race) =~= weekend_sessions(*r));
    out
}

/// The number of standings entries asked for: the `limit` parameter when it
/// parses as a `u32`, 30 otherwise.
pub fn standings_limit(limit: Option<&str>) -> (n: u32)
    ensures
        n == match limit {
            Some(l) => match parsed_u32(l@) {
                Some(v) => v,
                None => 30,
            },
            None => 30,
        },
{
    match limit {
        Some(l) => match parse_u32(l) {
            Some(v) => v,
            None => 30,
        },
        None => 30,
    }
}

/// The year of a race's season: the season when it parses as an `i64`,
/// 2026 otherwise.
pub fn season_year(season: Option<&str>) -> (y: i64)
    ensures
        y == match season {
            Some(s) => match parsed_i64(s@) {
                Some(v) => v,
                None => 2026,
            },
            None => 2026,
        },
{
    match season {
        Some(s) => match parse_i64(s) {
            Some(v) => v,
            None => 2026,
        },
        None => 2026,
    }
}

/// The place of a session type in a race weekend: first practice 0 up to
/// the race 6; 7 for any other text.
pub open spec fn session_rank(name: Seq<char>) -> int {
    if name == "FirstPractice"@ {
        0
    } else if name == "SecondPractice"@ {
        1
    } else if name == "ThirdPractice"@ {
        2
    } else if name == "SprintQualifying"@ {
        3
    } else if name == "Sprint"@ {
        4
    } else if name == "Qualifying"@ {
        5
    } else if name == "Race"@ {
        6
    } else {
        7
    }
}

proof fn lemma_session_names_ranked()
    ensures
        session_rank("FirstPractice"@) == 0,
        session_rank("SecondPractice"@) == 1,
        session_rank("ThirdPractice"@) == 2,
        session_rank("SprintQualifying"@) == 3,
        session_rank("Sprint"@) == 4,
        session_rank("Qualifying"@) == 5,
        session_rank("Race"@) == 6,
{
    reveal_strlit("FirstPractice");
    reveal_strlit("SecondPractice");
    reveal_strlit("ThirdPractice");
    reveal_strlit("SprintQualifying");
    reveal_strlit("Sprint");
    reveal_strlit("Qualifying");
    reveal_strlit("Race");
    assert("SecondPractice"@ != "FirstPractice"@) by {
        assert("SecondPractice"@[0] != "FirstPractice"@[0]);
    }
    assert("ThirdPractice"@ != "FirstPractice"@) by {
        assert("ThirdPractice"@[0] != "FirstPractice"@[0]);
    }
    assert("ThirdPractice"@ != "SecondPractice"@) by {
        assert("ThirdPractice"@[0] != "SecondPractice"@[0]);
    }
    assert("SprintQualifying"@ != "FirstPractice"@) by {
        assert("SprintQualifying"@[0] != "FirstPractice"@[0]);
    }
    assert("SprintQualifying"@ != "SecondPractice"@) by {
        assert("SprintQualifying"@[1] != "SecondPractice"@[1]);
    }
    assert("SprintQualifying"@ != "ThirdPractice"@) by {
        assert("SprintQualifying"@[0] != "ThirdPractice"@[0]);
    }
    assert("Sprint"@ != "FirstPractice"@) by {
        assert("Sprint"@[0] != "FirstPractice"@[0]);
    }
    assert("Sprint"@ != "SecondPractice"@) by {
        assert("Sprint"@[1] != "SecondPractice"@[1]);
    }
    assert("Sprint"@ != "ThirdPractice"@) by {
        assert("Sprint"@[0] != "ThirdPractice"@[0]);
    }
    assert("Sprint"@ != "SprintQualifying"@) by {
        assert("Sprint"@.len() != "SprintQualifying"@.len());
    }
    assert("Qualifying"@ != "FirstPractice"@) by {
        assert("Qualifying"@[0] != "FirstPractice"@[0]);
    }
    assert("Qualifying"@ != "SecondPractice"@) by {
        assert("Qualifying"@[0] != "SecondPractice"@[0]);
    }
    assert("Qualifying"@ != "ThirdPractice"@) by {
        assert("Qualifying"@[0] != "ThirdPractice"@[0]);
    }
    assert("Qualifying"@ != "SprintQualifying"@) by {
        assert("Qualifying"@[0] != "SprintQualifying"@[0]);
    }
    assert("Qualifying"@ != "Sprint"@) by {
        assert("Qualifying"@[0] != "Sprint"@[0]);
    }
    assert("Race"@ != "FirstPractice"@) by {
        assert("Race"@[0] != "FirstPractice"@[0]);
    }
    assert("Race"@ != "SecondPractice"@) by {
        assert("Race"@[0] != "SecondPractice"@[0]);
    }
    assert("Race"@ != "ThirdPractice"@) by {
        assert("Race"@[0] != "ThirdPractice"@[0]);
    }
    assert("Race"@ != "SprintQualifying"@) by {
        assert("Race"@[0] != "SprintQualifying"@[0]);
    }
    assert("Race"@ != "Sprint"@) by {
        assert("Race"@[0] != "Sprint"@[0]);
    }
    assert("Race"@ != "Qualifying"@) by {
        assert("Race"@[0] != "Qualifying"@[0]);
    }
}

/// Appending the entry of a session whose type ranks `k` after entries of
/// strictly increasing lower ranks keeps the ranks strictly increasing.
proof fn lemma_append_ranked_slot(
    p: Seq<(Seq<char>, Seq<char>, Seq<char>)>,
    name: Seq<char>,
    slot: Option<SessionSlot>,
    k: int,
)
    requires
        session_rank(name) == k,
        forall|i: int| 0 <= i < p.len() ==> session_rank(#[trigger] p[i].0) < k,
        forall|i: int, j: int|
            0 <= i < j < p.len() ==> session_rank(#[trigger] p[i].0) < session_rank(#[trigger] p[j].0),
    ensures
        forall|i: int|
            0 <= i < (p + slot_entry(name, slot)).len() ==> session_rank(
                #[trigger] (p + slot_entry(name, slot))[i].0,
            ) <= k,
        forall|i: int, j: int|
            0 <= i < j < (p + slot_entry(name, slot)).len() ==> session_rank(
                #[trigger] (p + slot_entry(name, slot))[i].0,
            ) < session_rank(#[trigger] (p + slot_entry(name, slot))[j].0),
{
    let q = p + slot_entry(name, slot);
    assert forall|i: int| 0 <= i < q.len() implies session_rank(#[trigger] q[i].0) <= k by {
        if i < p.len() {
            assert(q[i] == p[i]);
        }
    }
    assert forall|i: int, j: int|
        0 <= i < j < q.len() implies session_rank(#[trigger] q[i].0) < session_rank(#[trigger] q[j].0) by {
        assert(q[i] == p[i]);
        if j < p.len() {
            assert(q[j] == p[j]);
        }
    }
}

/// Every session of a weekend's schedule has its own type, no type twice,
/// in weekend order; and a third practice with a date and a time is stored
/// as "ThirdPractice" with that date and time.
pub proof fn lemma_weekend_sessions_distinct(r: ErgastRaceSchedule)
    ensures
        forall|i: int, j: int|
            0 <= i < j < weekend_sessions(r).len() ==> (#[trigger] weekend_sessions(r)[i]).0
                != (#[trigger] weekend_sessions(r)[j]).0,
        forall|i: int, j: int|
            0 <= i < j < weekend_sessions(r).len() ==> session_rank(
                (#[trigger] weekend_sessions(r)[i]).0,
            ) < session_rank((#[trigger] weekend_sessions(r)[j]).0),
        (r.third_practice is Some && r.third_practice->0.date is Some && r.third_practice->0.time
            is Some) ==> exists|i: int|
            0 <= i < weekend_sessions(r).len() && #[trigger] weekend_sessions(r)[i] == (
                "ThirdPractice"@,
                r.third_practice->0.date->0@,
                r.third_practice->0.time->0@,
            ),
{
    lemma_session_names_ranked();
    let s0 = Seq::<(Seq<char>, Seq<char>, Seq<char>)>::empty();
    lemma_append_ranked_slot(s0, "FirstPractice"@, r.first_practice, 0);
    let s1 = s0 + slot_entry("FirstPractice"@, r.first_practice);
    lemma_append_ranked_slot(s1, "SecondPractice"@, r.second_practice, 1);
    let s2 = s1 + slot_entry("SecondPractice"@, r.second_practice);
    lemma_append_ranked_slot(s2, "ThirdPractice"@, r.third_practice, 2);
    let s3 = s2 + slot_entry("ThirdPractice"@, r.third_practice);
    lemma_append_ranked_slot(s3, "SprintQualifying"@, r.sprint_qualifying, 3);
    let s4 = s3 + slot_entry("SprintQualifying"@, r.sprint_qualifying);
    lemma_append_ranked_slot(s4, "Sprint"@, r.sprint, 4);
    let s5 = s4 + slot_entry("Sprint"@, r.sprint);
    lemma_append_ranked_slot(s5, "Qualifying"@, r.qualifying, 5);
    let s6 = s5 + slot_entry("Qualifying"@, r.qualifying);
    let race = Some(SessionSlot { date: r.date, time: r.time });
    lemma_append_ranked_slot(s6, "Race"@, race, 6);
    let s7 = s6 + slot_entry("Race"@, race);
    assert(s7 =~= weekend_sessions(r));
    let w = weekend_sessions(r);
    assert forall|i: int, j: int| 0 <= i < j < w.len() implies (#[trigger] w[i]).0 != (#[trigger] w[j]).0 by {
        assert(session_rank(w[i].0) < session_rank(w[j].0));
    }
    if r.third_practice is Some && r.third_practice->0.date is Some && r.third_practice->0.time is Some {
        let i = s2.len() as int;
        assert(s3[i] == ("ThirdPractice"@, r.third_practice->0.date->0@, r.third_practice->0.time->0@));
        assert(w[i] == s3[i]);
    }
}

} // verus!
