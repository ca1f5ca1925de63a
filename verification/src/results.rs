use vstd::prelude::*;
use crate::scoring::{ConstructorResult, RaceResult};
use crate::text::{ascii_lowercase, chars_of, contains_chars, contains_seq, is_ascii_text,
    lowercase, lowercase_chars, occurs_at, remove_spaces, without_spaces};

verus! {

/// One row of a session's results as OpenF1 reports it; a field that is
/// absent or of another type is `None`.
#[derive(Clone, Copy, Debug)]
pub struct SessionResultRow {
    pub position: Option<i64>,
    pub driver_number: Option<i64>,
    pub fastest_lap: Option<bool>,
    pub dnf: Option<bool>,
}

/// The race result of a row: missing numbers count as 0, missing flags as
/// false.
pub open spec fn row_result(row: SessionResultRow) -> RaceResult {
    RaceResult {
        driver_id: match row.driver_number {
            Some(d) => d,
            None => 0,
        },
        position: match row.position {
            Some(p) => p,
            None => 0,
        },
        fastest_lap: match row.fastest_lap {
            Some(f) => f,
            None => false,
        },
        dnf: match row.dnf {
            Some(d) => d,
            None => false,
        },
    }
}

fn result_of_row(row: &SessionResultRow) -> (r: RaceResult)
    ensures
        r == row_result(*row),
{
    RaceResult {
        driver_id: match row.driver_number {
            Some(d) => d,
            None => 0,
        },
        position: match row.position {
            Some(p) => p,
            None => 0,
        },
        fastest_lap: match row.fastest_lap {
            Some(f) => f,
            None => false,
        },
        dnf: match row.dnf {
            Some(d) => d,
            None => false,
        },
    }
}

/// The race results of all rows, in order.
pub fn race_results_from_rows(rows: &Vec<SessionResultRow>) -> (results: Vec<RaceResult>)
    ensures
        results@.len() == rows@.len(),
        forall|i: int| 0 <= i < rows@.len() ==> #[trigger] results@[i] == row_result(rows@[i]),
{
    let mut results: Vec<RaceResult> = Vec::new();
    let mut i: usize = 0;
    while i < rows.len()
        invariant
            i <= rows@.len(),
            results@.len() == i,
            forall|j: int| 0 <= j < i ==> #[trigger] results@[j] == row_result(rows@[j]),
        decreases rows@.len() - i,
    {
        results.push(result_of_row(&rows[i]));
        i = i + 1;
    }
    results
}

/// The results of the rows with a positive position and driver number, in
/// order.
pub open spec fn classified_results(rows: Seq<SessionResultRow>) -> Seq<RaceResult>
    decreases rows.len(),
{
    if rows.len() == 0 {
        seq![]
    } else {
        let prev = classified_results(rows.drop_last());
        let r = row_result(rows.last());
        if r.position <= 0 || r.driver_id <= 0 {
            prev
        } else {
            prev.push(r)
        }
    }
}

/// The race results of the rows that name a positive position and driver
/// number; the others are dropped.
pub fn classified_race_results(rows: &Vec<SessionResultRow>) -> (results: Vec<RaceResult>)
    ensures
        results@ == classified_results(rows@),
{
    let mut results: Vec<RaceResult> = Vec::new();
    let mut i: usize = 0;
    assert(rows@.take(0) =~= Seq::<SessionResultRow>::empty());
    while i < rows.len()
        invariant
            i <= rows@.len(),
            results@ == classified_results(rows@.take(i as int)),
        decreases rows@.len() - i,
    {
        assert(rows@.take(i + 1).drop_last() =~= rows@.take(i as int));
        let r = result_of_row(&rows[i]);
        if !(r.position <= 0 || r.driver_id <= 0) {
            results.push(r);
        }
        i = i + 1;
    }
    assert(rows@.take(rows@.len() as int) =~= rows@);
    results
}

/// The fantasy id of the driver with racing number `number`: the last
/// (id, number) pairing listed for it.
pub open spec fn fantasy_id_for(drivers: Seq<(i64, i64)>, number: i64) -> Option<i64>
    decreases drivers.len(),
{
    if drivers.len() == 0 {
        None
    } else if drivers.last().1 == number {
        Some(drivers.last().0)
    } else {
        fantasy_id_for(drivers.drop_last(), number)
    }
}

fn lookup_fantasy_id(drivers: &Vec<(i64, i64)>, number: i64) -> (r: Option<i64>)
    ensures
        r == fantasy_id_for(drivers@, number),
{
    let mut found: Option<i64> = None;
    let mut i: usize = 0;
    assert(drivers@.take(0) =~= Seq::<(i64, i64)>::empty());
    while i < drivers.len()
        invariant
            i <= drivers@.len(),
            found == fantasy_id_for(drivers@.take(i as int), number),
        decreases drivers@.len() - i,
    {
        assert(drivers@.take(i + 1).drop_last() =~= drivers@.take(i as int));
        if drivers[i].1 == number {
            found = Some(drivers[i].0);
        }
        i = i + 1;
    }
    assert(drivers@.take(drivers@.len() as int) =~= drivers@);
    found
}

/// A result keyed by fantasy driver id instead of racing number, when the
/// number is known.
pub open spec fn mapped_result(drivers: Seq<(i64, i64)>, r: RaceResult) -> RaceResult {
    RaceResult {
        driver_id: match fantasy_id_for(drivers, r.driver_id) {
            Some(id) => id,
            None => r.driver_id,
        },
        ..r
    }
}

/// Re-keys results from racing numbers to fantasy driver ids, given the
/// (fantasy id, racing number) pairs of the season's drivers; a number
/// without a pairing is kept.
pub fn map_driver_numbers(results: &Vec<RaceResult>, drivers: &Vec<(i64, i64)>) -> (mapped: Vec<
    RaceResult,
>)
    ensures
        mapped@.len() == results@.len(),
        forall|i: int|
            0 <= i < results@.len() ==> #[trigger] mapped@[i] == mapped_result(drivers@, results@[i]),
{
    let mut mapped: Vec<RaceResult> = Vec::new();
    let mut i: usize = 0;
    while i < results.len()
        invariant
            i <= results@.len(),
            mapped@.len() == i,
            forall|j: int| 0 <= j < i ==> #[trigger] mapped@[j] == mapped_result(drivers@, results@[j]),
        decreases results@.len() - i,
    {
        let r = results[i];
        let id = match lookup_fantasy_id(drivers, r.driver_id) {
            Some(id) => id,
            None => r.driver_id,
        };
        mapped.push(RaceResult { driver_id: id, ..r });
        i = i + 1;
    }
    mapped
}

/// A constructor's place in the championship standings after a session, as
/// OpenF1 names the team; a missing name is empty and a missing position 0.
#[derive(Clone, Debug)]
pub struct TeamStanding {
    pub team_name: String,
    pub position: i64,
}

/// The text a team name is compared by: lower-cased, and without spaces
/// when `ignore_spaces`.
pub open spec fn name_key(name: Seq<char>, ignore_spaces: bool) -> Seq<char> {
    if ignore_spaces {
        without_spaces(lowercase(name))
    } else {
        lowercase(name)
    }
}

/// The first listed constructor whose name key occurs in the team's name key.
pub open spec fn matching_constructor(
    team: Seq<char>,
    constructors: Seq<(i64, String)>,
    ignore_spaces: bool,
) -> Option<i64>
    decreases constructors.len(),
{
    if constructors.len() == 0 {
        None
    } else if contains_seq(
        name_key(team, ignore_spaces),
        name_key(constructors[0].1@, ignore_spaces),
    ) {
        Some(constructors[0].0)
    } else {
        matching_constructor(team, constructors.drop_first(), ignore_spaces)
    }
}

/// The constructor results of the standings: each team that matches a
/// listed constructor yields that constructor's result at the team's
/// position; the others are dropped.
pub open spec fn matched_results(
    standings: Seq<TeamStanding>,
    constructors: Seq<(i64, String)>,
    ignore_spaces: bool,
) -> Seq<ConstructorResult>
    decreases standings.len(),
{
    if standings.len() == 0 {
        seq![]
    } else {
        let prev = matched_results(standings.drop_last(), constructors, ignore_spaces);
        match matching_constructor(standings.last().team_name@, constructors, ignore_spaces) {
            Some(id) => prev.push(ConstructorResult { constructor_id: id, position: standings.last().position }),
            None => prev,
        }
    }
}

/// The text an ASCII team name is compared by: its capital letters
/// lower-cased, and without spaces when `ignore_spaces`.
pub open spec fn ascii_key(name: Seq<char>, ignore_spaces: bool) -> Seq<char> {
    if ignore_spaces {
        without_spaces(ascii_lowercase(name))
    } else {
        ascii_lowercase(name)
    }
}

/// The first listed constructor whose ASCII key occurs in the team's.
pub open spec fn ascii_matching(
    team: Seq<char>,
    constructors: Seq<(i64, String)>,
    ignore_spaces: bool,
) -> Option<i64>
    decreases constructors.len(),
{
    if constructors.len() == 0 {
        None
    } else if contains_seq(
        ascii_key(team, ignore_spaces),
        ascii_key(constructors[0].1@, ignore_spaces),
    ) {
        Some(constructors[0].0)
    } else {
        ascii_matching(team, constructors.drop_first(), ignore_spaces)
    }
}

/// The constructor results of standings matched by ASCII keys.
pub open spec fn ascii_matched(
    standings: Seq<TeamStanding>,
    constructors: Seq<(i64, String)>,
    ignore_spaces: bool,
) -> Seq<ConstructorResult>
    decreases standings.len(),
{
    if standings.len() == 0 {
        seq![]
    } else {
        let prev = ascii_matched(standings.drop_last(), constructors, ignore_spaces);
        match ascii_matching(standings.last().team_name@, constructors, ignore_spaces) {
            Some(id) => prev.push(ConstructorResult { constructor_id: id, position: standings.last().position }),
            None => prev,
        }
    }
}

/// Whether every team name and every constructor name is ASCII.
pub open spec fn names_ascii(standings: Seq<TeamStanding>, constructors: Seq<(i64, String)>) -> bool {
    &&& forall|i: int| 0 <= i < standings.len() ==> is_ascii_text(#[trigger] standings[i].team_name@)
    &&& forall|i: int| 0 <= i < constructors.len() ==> is_ascii_text(#[trigger] constructors[i].1@)
}

proof fn lemma_matching_by_ascii_keys(team: Seq<char>, constructors: Seq<(i64, String)>, ignore_spaces: bool)
    requires
        name_key(team, ignore_spaces) == ascii_key(team, ignore_spaces),
        forall|j: int|
            0 <= j < constructors.len() ==> name_key(#[trigger] constructors[j].1@, ignore_spaces)
                == ascii_key(constructors[j].1@, ignore_spaces),
    ensures
        matching_constructor(team, constructors, ignore_spaces) == ascii_matching(
            team,
            constructors,
            ignore_spaces,
        ),
    decreases constructors.len(),
{
    if constructors.len() > 0 {
        assert(name_key(constructors[0].1@, ignore_spaces) == ascii_key(constructors[0].1@, ignore_spaces));
        let rest = constructors.drop_first();
        assert forall|j: int| 0 <= j < rest.len() implies name_key(#[trigger] rest[j].1@, ignore_spaces)
            == ascii_key(rest[j].1@, ignore_spaces) by {
            assert(rest[j] == constructors[j + 1]);
        }
        lemma_matching_by_ascii_keys(team, rest, ignore_spaces);
    }
}

proof fn lemma_matched_by_ascii_keys(
    standings: Seq<TeamStanding>,
    constructors: Seq<(i64, String)>,
    ignore_spaces: bool,
)
    requires
        forall|i: int|
            0 <= i < standings.len() ==> name_key(#[trigger] standings[i].team_name@, ignore_spaces)
                == ascii_key(standings[i].team_name@, ignore_spaces),
        forall|j: int|
            0 <= j < constructors.len() ==> name_key(#[trigger] constructors[j].1@, ignore_spaces)
                == ascii_key(constructors[j].1@, ignore_spaces),
    ensures
        matched_results(standings, constructors, ignore_spaces) == ascii_matched(
            standings,
            constructors,
            ignore_spaces,
        ),
    decreases standings.len(),
{
    if standings.len() > 0 {
        let prev = standings.drop_last();
        assert forall|i: int| 0 <= i < prev.len() implies name_key(#[trigger] prev[i].team_name@, ignore_spaces)
            == ascii_key(prev[i].team_name@, ignore_spaces) by {
            assert(prev[i] == standings[i]);
        }
        lemma_matched_by_ascii_keys(prev, constructors, ignore_spaces);
        let last = standings.last();
        assert(name_key(standings[standings.len() - 1].team_name@, ignore_spaces) == ascii_key(
            standings[standings.len() - 1].team_name@,
            ignore_spaces,
        ));
        lemma_matching_by_ascii_keys(last.team_name@, constructors, ignore_spaces);
    }
}

proof fn lemma_ascii_lowercase_idempotent(s: Seq<char>)
    ensures
        ascii_lowercase(ascii_lowercase(s)) == ascii_lowercase(s),
{
    assert(ascii_lowercase(ascii_lowercase(s)) =~= ascii_lowercase(s));
}

/// Matching ignores letter case: a team name and its lower-cased form
/// match the same constructor, and so do constructor names that differ only
/// in case.
pub proof fn lemma_matching_ignores_case(
    team: Seq<char>,
    constructors: Seq<(i64, String)>,
    other: Seq<(i64, String)>,
    ignore_spaces: bool,
)
    requires
        other.len() == constructors.len(),
        forall|j: int|
            0 <= j < constructors.len() ==> (#[trigger] other[j]).0 == constructors[j].0
                && ascii_lowercase(other[j].1@) == ascii_lowercase(constructors[j].1@),
    ensures
        ascii_matching(team, constructors, ignore_spaces) == ascii_matching(
            ascii_lowercase(team),
            constructors,
            ignore_spaces,
        ),
        ascii_matching(team, constructors, ignore_spaces) == ascii_matching(
            team,
            other,
            ignore_spaces,
        ),
    decreases constructors.len(),
{
    lemma_ascii_lowercase_idempotent(team);
    assert(ascii_key(ascii_lowercase(team), ignore_spaces) == ascii_key(team, ignore_spaces));
    if constructors.len() > 0 {
        assert(other[0].0 == constructors[0].0);
        assert(ascii_key(other[0].1@, ignore_spaces) == ascii_key(constructors[0].1@, ignore_spaces));
        let rest = constructors.drop_first();
        let orest = other.drop_first();
        assert forall|j: int| 0 <= j < rest.len() implies (#[trigger] orest[j]).0 == rest[j].0
            && ascii_lowercase(orest[j].1@) == ascii_lowercase(rest[j].1@) by {
            assert(orest[j] == other[j + 1]);
            assert(rest[j] == constructors[j + 1]);
        }
        lemma_matching_ignores_case(team, rest, orest, ignore_spaces);
    }
}

/// A team whose name equals the first listed constructor's name up to
/// letter case is matched to it.
pub proof fn lemma_same_name_up_to_case_matches(
    team: Seq<char>,
    constructors: Seq<(i64, String)>,
    ignore_spaces: bool,
)
    requires
        constructors.len() > 0,
        ascii_lowercase(team) == ascii_lowercase(constructors[0].1@),
    ensures
        ascii_matching(team, constructors, ignore_spaces) == Some(constructors[0].0),
{
    let k = ascii_key(team, ignore_spaces);
    assert(ascii_key(constructors[0].1@, ignore_spaces) == k);
    assert(k.subrange(0, k.len() as int) =~= k);
    assert(occurs_at(k, k, 0));
}

fn name_key_exec(name: &str, ignore_spaces: bool) -> (r: Vec<char>)
    ensures
        r@ == name_key(name@, ignore_spaces),
        is_ascii_text(name@) ==> name_key(name@, ignore_spaces) == ascii_key(name@, ignore_spaces),
{
    let l = lowercase_chars(name);
    if ignore_spaces {
        remove_spaces(&l)
    } else {
        l
    }
}

/// Matches the constructors of the championship standings to the fantasy
/// constructors `(id, name)`: a team belongs to the first constructor whose
/// lower-cased name occurs in the team's lower-cased name (with spaces
/// removed from both when `ignore_spaces`; an exact match is such an
/// occurrence).
pub fn match_constructor_results(
    standings: &Vec<TeamStanding>,
    constructors: &Vec<(i64, String)>,
    ignore_spaces: bool,
) -> (results: Vec<ConstructorResult>)
    ensures
        results@ == matched_results(standings@, constructors@, ignore_spaces),
        names_ascii(standings@, constructors@) ==> results@ == ascii_matched(
            standings@,
            constructors@,
            ignore_spaces,
        ),
{
    let mut keys: Vec<Vec<char>> = Vec::new();
    let mut k: usize = 0;
    while k < constructors.len()
        invariant
            k <= constructors@.len(),
            keys@.len() == k,
            forall|j: int| 0 <= j < k ==> (#[trigger] keys@[j])@ == name_key(constructors@[j].1@, ignore_spaces),
            forall|j: int|
                0 <= j < k ==> is_ascii_text(#[trigger] constructors@[j].1@) ==> name_key(
                    constructors@[j].1@,
                    ignore_spaces,
                ) == ascii_key(constructors@[j].1@, ignore_spaces),
        decreases constructors@.len() - k,
    {
        keys.push(name_key_exec(constructors[k].1.as_str(), ignore_spaces));
        k = k + 1;
    }
    let mut results: Vec<ConstructorResult> = Vec::new();
    let mut i: usize = 0;
    assert(standings@.take(0) =~= Seq::<TeamStanding>::empty());
    while i < standings.len()
        invariant
            i <= standings@.len(),
            keys@.len() == constructors@.len(),
            forall|j: int| 0 <= j < constructors@.len() ==> (#[trigger] keys@[j])@ == name_key(constructors@[j].1@, ignore_spaces),
            forall|j: int|
                0 <= j < constructors@.len() ==> is_ascii_text(#[trigger] constructors@[j].1@) ==> name_key(
                    constructors@[j].1@,
                    ignore_spaces,
                ) == ascii_key(constructors@[j].1@, ignore_spaces),
            forall|j: int|
                0 <= j < i ==> is_ascii_text(#[trigger] standings@[j].team_name@) ==> name_key(
                    standings@[j].team_name@,
                    ignore_spaces,
                ) == ascii_key(standings@[j].team_name@, ignore_spaces),
            results@ == matched_results(standings@.take(i as int), constructors@, ignore_spaces),
        decreases standings@.len() - i,
    {
        assert(standings@.take(i + 1).drop_last() =~= standings@.take(i as int));
        let team = name_key_exec(standings[i].team_name.as_str(), ignore_spaces);
        let ghost team_name = standings@[i as int].team_name@;
        let mut found: Option<i64> = None;
        let mut j: usize = 0;
        assert(constructors@.skip(0) =~= constructors@);
        while j < keys.len()
            invariant_except_break
                found is None,
                matching_constructor(team_name, constructors@.skip(j as int), ignore_spaces)
                    == matching_constructor(team_name, constructors@, ignore_spaces),
            invariant
                j <= keys@.len(),
                keys@.len() == constructors@.len(),
                forall|m: int| 0 <= m < constructors@.len() ==> (#[trigger] keys@[m])@ == name_key(constructors@[m].1@, ignore_spaces),
                team@ == name_key(team_name, ignore_spaces),
            ensures
                found == matching_constructor(team_name, constructors@, ignore_spaces),
            decreases keys@.len() - j,
        {
            assert(constructors@.skip(j as int).drop_first() =~= constructors@.skip(j + 1));
            assert(constructors@.skip(j as int)[0] == constructors@[j as int]);
            if contains_chars(&team, &keys[j]) {
                found = Some(constructors[j].0);
                break;
            }
            j = j + 1;
        }
        match found {
            Some(id) => {
                results.push(ConstructorResult { constructor_id: id, position: standings[i].position });
            },
            None => {},
        }
        i = i + 1;
    }
    assert(standings@.take(standings@.len() as int) =~= standings@);
    proof {
        if names_ascii(standings@, constructors@) {
            assert forall|j: int| 0 <= j < constructors@.len() implies name_key(
                #[trigger] constructors@[j].1@,
                ignore_spaces,
            ) == ascii_key(constructors@[j].1@, ignore_spaces) by {
                assert(is_ascii_text(constructors@[j].1@));
            }
            assert forall|j: int| 0 <= j < standings@.len() implies name_key(
                #[trigger] standings@[j].team_name@,
                ignore_spaces,
            ) == ascii_key(standings@[j].team_name@, ignore_spaces) by {
                assert(is_ascii_text(standings@[j].team_name@));
            }
            lemma_matched_by_ascii_keys(standings@, constructors@, ignore_spaces);
        }
    }
    results
}

} // verus!
