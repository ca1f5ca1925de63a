use vstd::prelude::*;

verus! {

/// Bonus awarded once to a team when either of its drivers sets the fastest lap.
pub const FASTEST_LAP_BONUS: i64 = 5;

/// Points for a finishing position: 25, 18, 15, 12, 10, 8, 6, 4, 2, 1 for the
/// first ten places and nothing for any other position.
pub open spec fn points_for_position(position: int) -> int {
    if position == 1 {
        25
    } else if position == 2 {
        18
    } else if position == 3 {
        15
    } else if position == 4 {
        12
    } else if position == 5 {
        10
    } else if position == 6 {
        8
    } else if position == 7 {
        6
    } else if position == 8 {
        4
    } else if position == 9 {
        2
    } else if position == 10 {
        1
    } else {
        0
    }
}

/// Points awarded for a finishing position.
pub fn get_finishing_points(position: i64) -> (points: i64)
    ensures
        points == points_for_position(position as int),
{
    if position < 1 || position > 10 {
        0
    } else if position == 1 {
        25
    } else if position == 2 {
        18
    } else if position == 3 {
        15
    } else if position == 4 {
        12
    } else if position == 5 {
        10
    } else if position == 6 {
        8
    } else if position == 7 {
        6
    } else if position == 8 {
        4
    } else if position == 9 {
        2
    } else {
        1
    }
}


/// Points for a driver's finishing position.
pub fn get_driver_finishing_points(position: i64) -> (points: i64)
    ensures
        points == points_for_position(position as int),
{
    get_finishing_points(position)
}

/// Points for a constructor's finishing position.
pub fn get_constructor_finishing_points(position: i64) -> (points: i64)
    ensures
        points == points_for_position(position as int),
{
    get_finishing_points(position)
}

/// A driver counts as not finished when flagged so or when unclassified.
pub open spec fn is_dnf(position: int, dnf: bool) -> bool {
    dnf || position < 1
}

/// Whether the first driver of a team did not finish.
pub fn driver_1_dnf(position: i64, dnf: bool) -> (r: bool)
    ensures
        r == is_dnf(position as int, dnf),
{
    dnf || position < 1
}

/// Whether the second driver of a team did not finish.
pub fn driver_2_dnf(position: i64, dnf: bool) -> (r: bool)
    ensures
        r == is_dnf(position as int, dnf),
{
    dnf || position < 1
}

/// The breakdown of a fantasy team's score for one Grand Prix.
#[derive(Clone, Copy, Debug)]
pub struct TeamScore {
    pub team_id: i64,
    pub driver_1_points: i64,
    pub driver_2_points: i64,
    pub constructor_points: i64,
    pub fastest_lap_bonus: i64,
    pub booster_points: i64,
    pub total_points: i64,
}

/// Points scored by a driver: nothing after a DNF, else the finishing points.
pub open spec fn driver_points(position: int, dnf: bool) -> int {
    if is_dnf(position, dnf) {
        0
    } else {
        points_for_position(position)
    }
}

/// The booster repeats the boosted driver's points; slot 1 is the first
/// driver, slot 2 the second.
pub open spec fn booster_points_for(
    booster_slot: Option<i64>,
    is_driver_1: bool,
    driver_1_points: int,
    driver_2_points: int,
) -> int {
    match booster_slot {
        Some(slot) => if slot == 1 && is_driver_1 {
            driver_1_points
        } else if slot == 2 && !is_driver_1 {
            driver_2_points
        } else {
            0
        },
        None => 0,
    }
}

/// The score of a team from its drivers' and constructor's results.
pub open spec fn team_score(
    driver_1_position: int,
    driver_2_position: int,
    constructor_position: int,
    driver_1_fastest_lap: bool,
    driver_2_fastest_lap: bool,
    booster_slot: Option<i64>,
    is_driver_1: bool,
    driver_1_is_dnf: bool,
    driver_2_is_dnf: bool,
) -> TeamScore {
    let d1 = driver_points(driver_1_position, driver_1_is_dnf);
    let d2 = driver_points(driver_2_position, driver_2_is_dnf);
    let c = points_for_position(constructor_position);
    let fl = if driver_1_fastest_lap || driver_2_fastest_lap { FASTEST_LAP_BONUS as int } else { 0 };
    let b = booster_points_for(booster_slot, is_driver_1, d1, d2);
    TeamScore {
        team_id: 0,
        driver_1_points: d1 as i64,
        driver_2_points: d2 as i64,
        constructor_points: c as i64,
        fastest_lap_bonus: fl as i64,
        booster_points: b as i64,
        total_points: (d1 + d2 + c + fl + b) as i64,
    }
}

/// Scores one team: each driver's finishing points (none after a DNF), the
/// constructor's finishing points, the fastest lap bonus once if either
/// driver set it, and the boosted driver's points once more.
pub fn calculate_team_score(
    driver_1_position: i64,
    driver_2_position: i64,
    constructor_position: i64,
    driver_1_fastest_lap: bool,
    driver_2_fastest_lap: bool,
    booster_driver_id: Option<i64>,
    is_driver_1: bool,
    driver_1_is_dnf: bool,
    driver_2_is_dnf: bool,
) -> (score: TeamScore)
    ensures
        score == team_score(
            driver_1_position as int,
            driver_2_position as int,
            constructor_position as int,
            driver_1_fastest_lap,
            driver_2_fastest_lap,
            booster_driver_id,
            is_driver_1,
            driver_1_is_dnf,
            driver_2_is_dnf,
        ),
        score.total_points == score.driver_1_points + score.driver_2_points
            + score.constructor_points + score.fastest_lap_bonus + score.booster_points,
{
    let driver_1_finishing_points = if !driver_1_dnf(driver_1_position, driver_1_is_dnf) {
        get_driver_finishing_points(driver_1_position)
    } else {
        0
    };
    let driver_2_finishing_points = if !driver_2_dnf(driver_2_position, driver_2_is_dnf) {
        get_driver_finishing_points(driver_2_position)
    } else {
        0
    };
    let constructor_finishing_points = get_constructor_finishing_points(constructor_position);
    let fastest_lap_bonus = if driver_1_fastest_lap || driver_2_fastest_lap {
        FASTEST_LAP_BONUS
    } else {
        0
    };
    let mut booster_points: i64 = 0;
    if let Some(booster) = booster_driver_id {
        if booster == 1 && is_driver_1 {
            booster_points = driver_1_finishing_points;
        } else if booster == 2 && !is_driver_1 {
            booster_points = driver_2_finishing_points;
        }
    }
    let total_points = driver_1_finishing_points + driver_2_finishing_points
        + constructor_finishing_points + fastest_lap_bonus + booster_points;
    TeamScore {
        team_id: 0,
        driver_1_points: driver_1_finishing_points,
        driver_2_points: driver_2_finishing_points,
        constructor_points: constructor_finishing_points,
        fastest_lap_bonus,
        booster_points,
        total_points,
    }
}


/// One driver's classification in a race, keyed by the driver's id.
#[derive(Clone, Copy, Debug)]
pub struct RaceResult {
    pub driver_id: i64,
    pub position: i64,
    pub fastest_lap: bool,
    pub dnf: bool,
}

/// One constructor's classification, keyed by the constructor's id.
#[derive(Clone, Copy, Debug)]
pub struct ConstructorResult {
    pub constructor_id: i64,
    pub position: i64,
}

/// The picks of one fantasy team for a Grand Prix.
#[derive(Clone, Copy, Debug)]
pub struct TeamSelection {
    pub team_id: i64,
    pub driver_1_id: i64,
    pub driver_2_id: i64,
    pub constructor_id: i64,
    pub booster_driver_id: Option<i64>,
}

/// The first result in `results` for driver `id`.
pub open spec fn first_result_for(results: Seq<RaceResult>, id: i64) -> Option<RaceResult>
    decreases results.len(),
{
    if results.len() == 0 {
        None
    } else if results[0].driver_id == id {
        Some(results[0])
    } else {
        first_result_for(results.drop_first(), id)
    }
}

/// The result used for driver `id`: its first result, or a DNF when absent.
pub open spec fn result_or_dnf(results: Seq<RaceResult>, id: i64) -> RaceResult {
    match first_result_for(results, id) {
        Some(r) => r,
        None => RaceResult { driver_id: id, position: 0, fastest_lap: false, dnf: true },
    }
}

/// The first result in `results` for constructor `id`.
pub open spec fn first_constructor_result(results: Seq<ConstructorResult>, id: i64) -> Option<
    ConstructorResult,
>
    decreases results.len(),
{
    if results.len() == 0 {
        None
    } else if results[0].constructor_id == id {
        Some(results[0])
    } else {
        first_constructor_result(results.drop_first(), id)
    }
}

/// The position used for constructor `id`: 0 when it has no result.
pub open spec fn constructor_position(results: Seq<ConstructorResult>, id: i64) -> int {
    match first_constructor_result(results, id) {
        Some(r) => r.position as int,
        None => 0,
    }
}

/// Which of the team's two drivers is boosted, as slot 1 or 2.
pub open spec fn booster_slot(team: TeamSelection) -> Option<i64> {
    match team.booster_driver_id {
        Some(b) => if b == team.driver_1_id {
            Some(1i64)
        } else if b == team.driver_2_id {
            Some(2i64)
        } else {
            None
        },
        None => None,
    }
}

/// The score of one team for a Grand Prix, given every driver's and
/// constructor's result and the fastest lap's driver.
pub open spec fn gp_team_score(
    team: TeamSelection,
    race_results: Seq<RaceResult>,
    constructor_results: Seq<ConstructorResult>,
    fastest_lap_driver_id: Option<i64>,
) -> TeamScore {
    let r1 = result_or_dnf(race_results, team.driver_1_id);
    let r2 = result_or_dnf(race_results, team.driver_2_id);
    let s = team_score(
        r1.position as int,
        r2.position as int,
        constructor_position(constructor_results, team.constructor_id),
        r1.fastest_lap || fastest_lap_driver_id == Some(team.driver_1_id),
        r2.fastest_lap || fastest_lap_driver_id == Some(team.driver_2_id),
        booster_slot(team),
        team.booster_driver_id == Some(team.driver_1_id),
        r1.dnf,
        r2.dnf,
    );
    TeamScore { team_id: team.team_id, ..s }
}

/// The first result for driver `id`.
pub fn find_race_result(results: &Vec<RaceResult>, id: i64) -> (r: Option<RaceResult>)
    ensures
        r == first_result_for(results@, id),
{
    let mut i: usize = 0;
    assert(results@.skip(0) =~= results@);
    while i < results.len()
        invariant
            i <= results@.len(),
            first_result_for(results@.skip(i as int), id) == first_result_for(results@, id),
        decreases results@.len() - i,
    {
        assert(results@.skip(i as int).drop_first() =~= results@.skip(i + 1));
        if results[i].driver_id == id {
            return Some(results[i]);
        }
        i = i + 1;
    }
    None
}

/// The first result for constructor `id`.
pub fn find_constructor_result(results: &Vec<ConstructorResult>, id: i64) -> (r: Option<
    ConstructorResult,
>)
    ensures
        r == first_constructor_result(results@, id),
{
    let mut i: usize = 0;
    assert(results@.skip(0) =~= results@);
    while i < results.len()
        invariant
            i <= results@.len(),
            first_constructor_result(results@.skip(i as int), id) == first_constructor_result(
                results@,
                id,
            ),
        decreases results@.len() - i,
    {
        assert(results@.skip(i as int).drop_first() =~= results@.skip(i + 1));
        if results[i].constructor_id == id {
            return Some(results[i]);
        }
        i = i + 1;
    }
    None
}

/// Scores one team for a Grand Prix. A driver without a result counts as a
/// DNF, a constructor without a result as position 0; a driver has the
/// fastest lap when their result says so or when they are the named fastest
/// lap driver; the booster doubles the points of whichever of the two drivers
/// it names.
pub fn score_team_for_gp(
    team: &TeamSelection,
    race_results: &Vec<RaceResult>,
    constructor_results: &Vec<ConstructorResult>,
    fastest_lap_driver_id: Option<i64>,
) -> (score: TeamScore)
    ensures
        score == gp_team_score(*team, race_results@, constructor_results@, fastest_lap_driver_id),
{
    let driver_1_result = match find_race_result(race_results, team.driver_1_id) {
        Some(r) => r,
        None => RaceResult { driver_id: team.driver_1_id, position: 0, fastest_lap: false, dnf: true },
    };
    let driver_2_result = match find_race_result(race_results, team.driver_2_id) {
        Some(r) => r,
        None => RaceResult { driver_id: team.driver_2_id, position: 0, fastest_lap: false, dnf: true },
    };
    let constructor_position = match find_constructor_result(constructor_results, team.constructor_id) {
        Some(c) => c.position,
        None => 0,
    };
    let driver_1_fastest = driver_1_result.fastest_lap || match fastest_lap_driver_id {
        Some(id) => id == team.driver_1_id,
        None => false,
    };
    let driver_2_fastest = driver_2_result.fastest_lap || match fastest_lap_driver_id {
        Some(id) => id == team.driver_2_id,
        None => false,
    };
    let is_driver_1 = match team.booster_driver_id {
        Some(id) => id == team.driver_1_id,
        None => false,
    };
    let slot = match team.booster_driver_id {
        Some(b) => if b == team.driver_1_id {
            Some(1i64)
        } else if b == team.driver_2_id {
            Some(2i64)
        } else {
            None
        },
        None => None,
    };
    let score = calculate_team_score(
        driver_1_result.position,
        driver_2_result.position,
        constructor_position,
        driver_1_fastest,
        driver_2_fastest,
        slot,
        is_driver_1,
        driver_1_result.dnf,
        driver_2_result.dnf,
    );
    TeamScore { team_id: team.team_id, ..score }
}

/// Scores every team of a Grand Prix, in the order given.
pub fn calculate_gp_scores(
    teams: &Vec<TeamSelection>,
    race_results: &Vec<RaceResult>,
    constructor_results: &Vec<ConstructorResult>,
    fastest_lap_driver_id: Option<i64>,
) -> (scores: Vec<TeamScore>)
    ensures
        scores@.len() == teams@.len(),
        forall|i: int|
            0 <= i < teams@.len() ==> #[trigger] scores@[i] == gp_team_score(
                teams@[i],
                race_results@,
                constructor_results@,
                fastest_lap_driver_id,
            ),
{
    let mut scores: Vec<TeamScore> = Vec::new();
    let mut i: usize = 0;
    while i < teams.len()
        invariant
            i <= teams@.len(),
            scores@.len() == i,
            forall|j: int|
                0 <= j < i ==> #[trigger] scores@[j] == gp_team_score(
                    teams@[j],
                    race_results@,
                    constructor_results@,
                    fastest_lap_driver_id,
                ),
        decreases teams@.len() - i,
    {
        let s = score_team_for_gp(&teams[i], race_results, constructor_results, fastest_lap_driver_id);
        scores.push(s);
        i = i + 1;
    }
    scores
}

/// The driver of the first result flagged with the fastest lap.
pub open spec fn fastest_lap_driver(results: Seq<RaceResult>) -> Option<i64>
    decreases results.len(),
{
    if results.len() == 0 {
        None
    } else if results[0].fastest_lap {
        Some(results[0].driver_id)
    } else {
        fastest_lap_driver(results.drop_first())
    }
}

/// The driver of the first result flagged with the fastest lap, if any.
pub fn find_fastest_lap_driver(results: &Vec<RaceResult>) -> (r: Option<i64>)
    ensures
        r == fastest_lap_driver(results@),
{
    let mut i: usize = 0;
    assert(results@.skip(0) =~= results@);
    while i < results.len()
        invariant
            i <= results@.len(),
            fastest_lap_driver(results@.skip(i as int)) == fastest_lap_driver(results@),
        decreases results@.len() - i,
    {
        assert(results@.skip(i as int).drop_first() =~= results@.skip(i + 1));
        if results[i].fastest_lap {
            return Some(results[i].driver_id);
        }
        i = i + 1;
    }
    None
}


/// A better finishing position never earns fewer points, and every position
/// earns between 0 and 25 points.
pub proof fn lemma_points_never_increase_with_position(better: int, worse: int)
    requires
        1 <= better <= worse,
    ensures
        points_for_position(better) >= points_for_position(worse),
        0 <= points_for_position(worse) <= 25,
        0 <= points_for_position(better) <= 25,
{
}

/// The booster doubles exactly the boosted driver's points: a team's total is
/// its drivers', constructor's and fastest lap points, plus the boosted
/// driver's points once more, and nothing more when no driver of the team is
/// boosted.
pub proof fn lemma_booster_doubles_boosted_driver(
    team: TeamSelection,
    race_results: Seq<RaceResult>,
    constructor_results: Seq<ConstructorResult>,
    fastest_lap_driver_id: Option<i64>,
)
    requires
        team.driver_1_id != team.driver_2_id,
    ensures
        ({
            let s = gp_team_score(team, race_results, constructor_results, fastest_lap_driver_id);
            let base = s.driver_1_points + s.driver_2_points + s.constructor_points
                + s.fastest_lap_bonus;
            &&& team.booster_driver_id == Some(team.driver_1_id) ==> s.total_points == base
                + s.driver_1_points
            &&& team.booster_driver_id == Some(team.driver_2_id) ==> s.total_points == base
                + s.driver_2_points
            &&& team.booster_driver_id != Some(team.driver_1_id) && team.booster_driver_id
                != Some(team.driver_2_id) ==> s.total_points == base
        }),
{
}

/// A driver without a race result, or whose result is a DNF, scores nothing,
/// and the fastest lap bonus is 5 points when either driver set the fastest
/// lap and 0 otherwise.
pub proof fn lemma_dnf_and_fastest_lap(
    team: TeamSelection,
    race_results: Seq<RaceResult>,
    constructor_results: Seq<ConstructorResult>,
    fastest_lap_driver_id: Option<i64>,
)
    ensures
        ({
            let s = gp_team_score(team, race_results, constructor_results, fastest_lap_driver_id);
            let r1 = result_or_dnf(race_results, team.driver_1_id);
            let r2 = result_or_dnf(race_results, team.driver_2_id);
            &&& first_result_for(race_results, team.driver_1_id) is None ==> s.driver_1_points == 0
            &&& first_result_for(race_results, team.driver_2_id) is None ==> s.driver_2_points == 0
            &&& is_dnf(r1.position as int, r1.dnf) ==> s.driver_1_points == 0
            &&& is_dnf(r2.position as int, r2.dnf) ==> s.driver_2_points == 0
            &&& s.fastest_lap_bonus == (if r1.fastest_lap || r2.fastest_lap || (
            fastest_lap_driver_id is Some && (fastest_lap_driver_id == Some(team.driver_1_id)
                || fastest_lap_driver_id == Some(team.driver_2_id))) {
                FASTEST_LAP_BONUS
            } else {
                0
            })
        }),
{
}

/// A team's total for a Grand Prix lies between 0 and 130 points.
pub proof fn lemma_team_total_bounds(
    team: TeamSelection,
    race_results: Seq<RaceResult>,
    constructor_results: Seq<ConstructorResult>,
    fastest_lap_driver_id: Option<i64>,
)
    ensures
        0 <= gp_team_score(team, race_results, constructor_results, fastest_lap_driver_id).total_points
            <= 130,
{
}

/// A constructor scores by its own finishing position alone: its points are
/// its position's finishing points, whatever its team's drivers did (both
/// retiring included), so two teams with the constructor in the same place
/// get the same constructor points; a winning constructor earns 25.
pub proof fn lemma_constructor_points_ignore_drivers(
    constructor_position: int,
    a_driver_1_position: int,
    a_driver_2_position: int,
    a_driver_1_fastest_lap: bool,
    a_driver_2_fastest_lap: bool,
    a_booster_slot: Option<i64>,
    a_is_driver_1: bool,
    a_driver_1_is_dnf: bool,
    a_driver_2_is_dnf: bool,
    b_driver_1_position: int,
    b_driver_2_position: int,
    b_driver_1_fastest_lap: bool,
    b_driver_2_fastest_lap: bool,
    b_booster_slot: Option<i64>,
    b_is_driver_1: bool,
    b_driver_1_is_dnf: bool,
    b_driver_2_is_dnf: bool,
)
    ensures
        team_score(
            a_driver_1_position,
            a_driver_2_position,
            constructor_position,
            a_driver_1_fastest_lap,
            a_driver_2_fastest_lap,
            a_booster_slot,
            a_is_driver_1,
            a_driver_1_is_dnf,
            a_driver_2_is_dnf,
        ).constructor_points == points_for_position(constructor_position),
        team_score(
            a_driver_1_position,
            a_driver_2_position,
            constructor_position,
            a_driver_1_fastest_lap,
            a_driver_2_fastest_lap,
            a_booster_slot,
            a_is_driver_1,
            a_driver_1_is_dnf,
            a_driver_2_is_dnf,
        ).constructor_points == team_score(
            b_driver_1_position,
            b_driver_2_position,
            constructor_position,
            b_driver_1_fastest_lap,
            b_driver_2_fastest_lap,
            b_booster_slot,
            b_is_driver_1,
            b_driver_1_is_dnf,
            b_driver_2_is_dnf,
        ).constructor_points,
        constructor_position == 1 ==> team_score(
            a_driver_1_position,
            a_driver_2_position,
            constructor_position,
            a_driver_1_fastest_lap,
            a_driver_2_fastest_lap,
            a_booster_slot,
            a_is_driver_1,
            a_driver_1_is_dnf,
            a_driver_2_is_dnf,
        ).constructor_points == 25,
        a_driver_1_is_dnf && a_driver_2_is_dnf && !a_driver_1_fastest_lap && !a_driver_2_fastest_lap
            ==> team_score(
            a_driver_1_position,
            a_driver_2_position,
            constructor_position,
            a_driver_1_fastest_lap,
            a_driver_2_fastest_lap,
            a_booster_slot,
            a_is_driver_1,
            a_driver_1_is_dnf,
            a_driver_2_is_dnf,
        ).total_points == points_for_position(constructor_position),
{
}

} // verus!
