use vstd::prelude::*;
use crate::text::{chars_of, string_from_chars};

verus! {

/// One driver's qualifying result as Ergast lists it; missing texts are
/// empty, and a session time is `None` when the driver has no entry for it.
#[derive(Clone, Debug)]
pub struct QualifyingResultRow {
    pub number: String,
    pub code: String,
    pub given_name: String,
    pub family_name: String,
    pub constructor: String,
    pub q1: Option<String>,
    pub q2: Option<String>,
    pub q3: Option<String>,
}

/// A driver's entry in one qualifying session, before ranking; an empty
/// time means no time was set.
#[derive(Clone, Debug)]
pub struct QualifyingEntry {
    pub driver_number: String,
    pub driver_code: String,
    pub driver_name: String,
    pub constructor: String,
    pub time: String,
}

/// The qualifying session of a row's time: 1, 2 or 3.
pub open spec fn session_time(row: QualifyingResultRow, session: u8) -> Option<String> {
    if session == 1 {
        row.q1
    } else if session == 2 {
        row.q2
    } else {
        row.q3
    }
}

/// The full name of a driver: given name, a space, family name.
pub open spec fn full_name(row: QualifyingResultRow) -> Seq<char> {
    row.given_name@ + seq![' '] + row.family_name@
}

/// The entries of one qualifying session: one per row that lists the
/// session, in order.
pub open spec fn session_entries(rows: Seq<QualifyingResultRow>, session: u8) -> Seq<
    (Seq<char>, Seq<char>, Seq<char>, Seq<char>, Seq<char>),
>
    decreases rows.len(),
{
    if rows.len() == 0 {
        seq![]
    } else {
        let prev = session_entries(rows.drop_last(), session);
        let r = rows.last();
        match session_time(r, session) {
            Some(t) => prev.push((r.number@, r.code@, full_name(r), r.constructor@, t@)),
            None => prev,
        }
    }
}

fn full_name_exec(row: &QualifyingResultRow) -> (s: String)
    ensures
        s@ == full_name(*row),
{
    let mut cs = chars_of(row.given_name.as_str());
    cs.push(' ');
    let family = chars_of(row.family_name.as_str());
    let ghost start = cs@;
    let mut i: usize = 0;
    while i < family.len()
        invariant
            i <= family@.len(),
            cs@ == start + family@.take(i as int),
        decreases family@.len() - i,
    {
        cs.push(family[i]);
        i = i + 1;
        assert(cs@ =~= start + family@.take(i as int));
    }
    assert(family@.take(family@.len() as int) =~= family@);
    assert(cs@ =~= full_name(*row));
    string_from_chars(&cs)
}

/// The entries of qualifying session 1, 2 or 3: each row that lists the
/// session yields the driver's number, code, full name, constructor and
/// session time (possibly empty), in order.
pub fn qualifying_session_entries(rows: &Vec<QualifyingResultRow>, session: u8) -> (entries: Vec<
    QualifyingEntry,
>)
    ensures
        entries@.len() == session_entries(rows@, session).len(),
        forall|i: int|
            0 <= i < entries@.len() ==> ((#[trigger] entries@[i]).driver_number@, entries@[i].driver_code@,
            entries@[i].driver_name@, entries@[i].constructor@, entries@[i].time@) == session_entries(
                rows@,
                session,
            )[i],
{
    let mut entries: Vec<QualifyingEntry> = Vec::new();
    let mut i: usize = 0;
    assert(rows@.take(0) =~= Seq::<QualifyingResultRow>::empty());
    while i < rows.len()
        invariant
            i <= rows@.len(),
            entries@.len() == session_entries(rows@.take(i as int), session).len(),
            forall|j: int|
                0 <= j < entries@.len() ==> ((#[trigger] entries@[j]).driver_number@, entries@[j].driver_code@,
                entries@[j].driver_name@, entries@[j].constructor@, entries@[j].time@) == session_entries(
                    rows@.take(i as int),
                    session,
                )[j],
        decreases rows@.len() - i,
    {
        assert(rows@.take(i + 1).drop_last() =~= rows@.take(i as int));
        let row = &rows[i];
        let time = if session == 1 {
            &row.q1
        } else if session == 2 {
            &row.q2
        } else {
            &row.q3
        };
        match time {
            Some(t) => {
                let name = full_name_exec(row);
                entries.push(
                    QualifyingEntry {
                        driver_number: row.number.clone(),
                        driver_code: row.code.clone(),
                        driver_name: name,
                        constructor: row.constructor.clone(),
                        time: t.clone(),
                    },
                );
            },
            None => {},
        }
        i = i + 1;
    }
    assert(rows@.take(rows@.len() as int) =~= rows@);
    entries
}

} // verus!
