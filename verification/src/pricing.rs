use vstd::prelude::*;
use crate::scoring::{first_constructor_result, first_result_for, find_constructor_result,
    find_race_result, get_driver_finishing_points, points_for_position, ConstructorResult,
    RaceResult};

verus! {

/// Lowest price a driver or constructor can have.
pub const MIN_PRICE: i64 = 5_000_000;

/// Highest price a driver or constructor can have.
pub const MAX_PRICE: i64 = 50_000_000;

/// Price change for a classified finishing position; an unclassified
/// position counts as a DNF.
pub open spec fn driver_price_change(position: int) -> int {
    if position == 1 {
        5_000_000
    } else if position == 2 {
        3_000_000
    } else if position == 3 {
        2_000_000
    } else if 4 <= position <= 6 {
        1_000_000
    } else if 7 <= position <= 10 {
        0
    } else if position >= 11 {
        -1_000_000
    } else {
        -2_000_000
    }
}

/// Price change of a driver for a finishing position: +5M for a win, +3M
/// for 2nd, +2M for 3rd, +1M for 4th to 6th, nothing for 7th to 10th, -1M
/// from 11th on and -2M when unclassified.
pub fn calculate_driver_price_change(position: i64) -> (change: i64)
    ensures
        change == driver_price_change(position as int),
{
    if position == 1 {
        5_000_000
    } else if position == 2 {
        3_000_000
    } else if position == 3 {
        2_000_000
    } else if 4 <= position && position <= 6 {
        1_000_000
    } else if 7 <= position && position <= 10 {
        0
    } else if position >= 11 {
        -1_000_000
    } else {
        -2_000_000
    }
}

/// The whole price change of a driver after a race: -2M after a DNF,
/// otherwise the change for the position, 2M more for a win and 1M more for
/// the fastest lap.
pub open spec fn driver_price_delta(r: RaceResult) -> int {
    if r.dnf || r.position < 1 {
        -2_000_000
    } else {
        driver_price_change(r.position as int) + (if r.position == 1 { 2_000_000int } else { 0 }) + (
        if r.fastest_lap {
            1_000_000int
        } else {
            0
        })
    }
}

/// The whole price change of a driver after a race.
pub fn driver_price_delta_for(r: &RaceResult) -> (change: i64)
    ensures
        change == driver_price_delta(*r),
{
    if r.dnf || r.position < 1 {
        -2_000_000
    } else {
        let base = calculate_driver_price_change(r.position);
        let win_bonus: i64 = if r.position == 1 { 2_000_000 } else { 0 };
        let fastest_lap_bonus: i64 = if r.fastest_lap { 1_000_000 } else { 0 };
        base + win_bonus + fastest_lap_bonus
    }
}

/// The base price change of a constructor for its drivers' combined points.
pub open spec fn constructor_base_change(combined_points: int) -> int {
    if combined_points == 50 {
        8_000_000
    } else if combined_points == 43 || combined_points == 37 {
        6_000_000
    } else if combined_points == 40 {
        5_000_000
    } else if 28 <= combined_points <= 39 {
        4_000_000
    } else if 15 <= combined_points <= 27 {
        2_000_000
    } else if 1 <= combined_points <= 14 {
        1_000_000
    } else if combined_points == 0 {
        -2_000_000
    } else {
        -3_000_000
    }
}

/// Price change of a constructor: the base change for the combined points,
/// 3M more when dominant and 1M more when both drivers scored.
pub open spec fn constructor_price_change(
    combined_points: int,
    both_in_points: bool,
    is_dominant: bool,
) -> int {
    constructor_base_change(combined_points) + (if is_dominant { 3_000_000int } else { 0 }) + (
    if both_in_points {
        1_000_000int
    } else {
        0
    })
}

/// Price change of a constructor after a race.
pub fn calculate_constructor_price_change(
    combined_points: i64,
    both_in_points: bool,
    is_dominant: bool,
) -> (change: i64)
    ensures
        change == constructor_price_change(combined_points as int, both_in_points, is_dominant),
{
    let mut change: i64 = if combined_points == 50 {
        8_000_000
    } else if combined_points == 43 || combined_points == 37 {
        6_000_000
    } else if combined_points == 40 {
        5_000_000
    } else if 28 <= combined_points && combined_points <= 39 {
        4_000_000
    } else if 15 <= combined_points && combined_points <= 27 {
        2_000_000
    } else if 1 <= combined_points && combined_points <= 14 {
        1_000_000
    } else if combined_points == 0 {
        -2_000_000
    } else {
        -3_000_000
    };
    if is_dominant {
        change = change + 3_000_000;
    }
    if both_in_points {
        change = change + 1_000_000;
    }
    change
}

/// A price moved by a change and held between the price limits.
pub open spec fn limited_price(salary: int, change: int) -> int {
    let p = salary + change;
    if p < MIN_PRICE {
        MIN_PRICE as int
    } else if p > MAX_PRICE {
        MAX_PRICE as int
    } else {
        p
    }
}

/// Applies a price change, keeping the price between 5M and 50M.
pub fn apply_price_limits(salary: i64, change: i64) -> (price: i64)
    ensures
        price == limited_price(salary as int, change as int),
        MIN_PRICE <= price <= MAX_PRICE,
{
    let p: i128 = salary as i128 + change as i128;
    if p < MIN_PRICE as i128 {
        MIN_PRICE
    } else if p > MAX_PRICE as i128 {
        MAX_PRICE
    } else {
        p as i64
    }
}

/// The constructor of driver `d`: the last pairing listed for it.
pub open spec fn team_of(driver_teams: Seq<(i64, i64)>, d: i64) -> Option<i64>
    decreases driver_teams.len(),
{
    if driver_teams.len() == 0 {
        None
    } else if driver_teams.last().0 == d {
        Some(driver_teams.last().1)
    } else {
        team_of(driver_teams.drop_last(), d)
    }
}

/// The constructor of driver `d`, if any pairing lists it.
pub fn lookup_team(driver_teams: &Vec<(i64, i64)>, d: i64) -> (r: Option<i64>)
    ensures
        r == team_of(driver_teams@, d),
{
    let mut found: Option<i64> = None;
    let mut i: usize = 0;
    assert(driver_teams@.take(0) =~= Seq::<(i64, i64)>::empty());
    while i < driver_teams.len()
        invariant
            i <= driver_teams@.len(),
            found == team_of(driver_teams@.take(i as int), d),
        decreases driver_teams@.len() - i,
    {
        assert(driver_teams@.take(i + 1).drop_last() =~= driver_teams@.take(i as int));
        let (driver, team) = driver_teams[i];
        if driver == d {
            found = Some(team);
        }
        i = i + 1;
    }
    assert(driver_teams@.take(driver_teams@.len() as int) =~= driver_teams@);
    found
}

/// Whether a result counts toward constructor `c`: the driver finished,
/// was classified and drives for `c`.
pub open spec fn counts_for(r: RaceResult, driver_teams: Seq<(i64, i64)>, c: i64) -> bool {
    !r.dnf && r.position > 0 && team_of(driver_teams, r.driver_id) == Some(c)
}

/// The points of the driver of `r`, taken from that driver's first result.
pub open spec fn entry_points(results: Seq<RaceResult>, r: RaceResult) -> int {
    match first_result_for(results, r.driver_id) {
        Some(f) => points_for_position(f.position as int),
        None => 0,
    }
}

/// The points of the first `n` results that count toward constructor `c`.
pub open spec fn combined_points_upto(
    results: Seq<RaceResult>,
    driver_teams: Seq<(i64, i64)>,
    c: i64,
    n: int,
) -> int
    decreases n,
{
    if n <= 0 {
        0
    } else {
        combined_points_upto(results, driver_teams, c, n - 1) + if counts_for(
            results[n - 1],
            driver_teams,
            c,
        ) {
            entry_points(results, results[n - 1])
        } else {
            0
        }
    }
}

/// How many of the first `n` results count toward constructor `c` and scored.
pub open spec fn scorers_upto(
    results: Seq<RaceResult>,
    driver_teams: Seq<(i64, i64)>,
    c: i64,
    n: int,
) -> int
    decreases n,
{
    if n <= 0 {
        0
    } else {
        scorers_upto(results, driver_teams, c, n - 1) + if counts_for(
            results[n - 1],
            driver_teams,
            c,
        ) && entry_points(results, results[n - 1]) > 0 {
            1int
        } else {
            0
        }
    }
}

/// How many of the first `n` results count toward constructor `c`.
pub open spec fn classified_upto(
    results: Seq<RaceResult>,
    driver_teams: Seq<(i64, i64)>,
    c: i64,
    n: int,
) -> int
    decreases n,
{
    if n <= 0 {
        0
    } else {
        classified_upto(results, driver_teams, c, n - 1) + if counts_for(
            results[n - 1],
            driver_teams,
            c,
        ) {
            1int
        } else {
            0
        }
    }
}

/// Whether one of the first `n` results that count toward constructor `c`
/// finished at `position`.
pub open spec fn finished_at_upto(
    results: Seq<RaceResult>,
    driver_teams: Seq<(i64, i64)>,
    c: i64,
    position: i64,
    n: int,
) -> bool
    decreases n,
{
    if n <= 0 {
        false
    } else {
        finished_at_upto(results, driver_teams, c, position, n - 1) || (counts_for(
            results[n - 1],
            driver_teams,
            c,
        ) && results[n - 1].position == position)
    }
}

/// Whether constructor `c` took a one-two: its classified drivers are two,
/// and they finished first and second.
pub open spec fn one_two_finish(results: Seq<RaceResult>, driver_teams: Seq<(i64, i64)>, c: i64) -> bool {
    let n = results.len() as int;
    &&& classified_upto(results, driver_teams, c, n) == 2
    &&& finished_at_upto(results, driver_teams, c, 1, n)
    &&& finished_at_upto(results, driver_teams, c, 2, n)
}

/// The price change of constructor `c` after a race: -3M when none of its
/// drivers was classified (both did not finish); otherwise the base change
/// for the combined points, 3M more for a one-two finish and 1M more when
/// both drivers scored.
pub open spec fn constructor_delta(results: Seq<RaceResult>, driver_teams: Seq<(i64, i64)>, c: i64) -> int {
    let n = results.len() as int;
    if classified_upto(results, driver_teams, c, n) == 0 {
        -3_000_000
    } else {
        let combined = combined_points_upto(results, driver_teams, c, n);
        let scorers = scorers_upto(results, driver_teams, c, n);
        constructor_price_change(combined, scorers >= 2, one_two_finish(results, driver_teams, c))
    }
}

/// The price changes of the listed constructors that were classified.
pub open spec fn constructor_changes(
    constructors: Seq<i64>,
    results: Seq<RaceResult>,
    constructor_results: Seq<ConstructorResult>,
    driver_teams: Seq<(i64, i64)>,
) -> Seq<(i64, i64)>
    decreases constructors.len(),
{
    if constructors.len() == 0 {
        seq![]
    } else {
        let prev = constructor_changes(
            constructors.drop_last(),
            results,
            constructor_results,
            driver_teams,
        );
        let c = constructors.last();
        match first_constructor_result(constructor_results, c) {
            Some(cr) => if cr.position > 0 {
                prev.push((c, constructor_delta(results, driver_teams, c) as i64))
            } else {
                prev
            },
            None => prev,
        }
    }
}

proof fn lemma_combined_bounds(
    results: Seq<RaceResult>,
    driver_teams: Seq<(i64, i64)>,
    c: i64,
    n: int,
)
    requires
        0 <= n,
    ensures
        0 <= combined_points_upto(results, driver_teams, c, n) <= 25 * n,
        0 <= scorers_upto(results, driver_teams, c, n) <= n,
        0 <= classified_upto(results, driver_teams, c, n) <= n,
    decreases n,
{
    if n > 0 {
        lemma_combined_bounds(results, driver_teams, c, n - 1);
    }
}

/// The tally of constructor `c`: combined points, scoring drivers,
/// classified drivers, and whether a classified driver finished first and
/// whether one finished second.
fn constructor_tally(results: &Vec<RaceResult>, driver_teams: &Vec<(i64, i64)>, c: i64) -> (r: (
    i64,
    usize,
    usize,
    bool,
    bool,
))
    requires
        results@.len() * 25 <= i64::MAX,
    ensures
        r.0 == combined_points_upto(results@, driver_teams@, c, results@.len() as int),
        r.1 == scorers_upto(results@, driver_teams@, c, results@.len() as int),
        r.2 == classified_upto(results@, driver_teams@, c, results@.len() as int),
        r.3 == finished_at_upto(results@, driver_teams@, c, 1, results@.len() as int),
        r.4 == finished_at_upto(results@, driver_teams@, c, 2, results@.len() as int),
{
    let mut combined: i64 = 0;
    let mut scorers: usize = 0;
    let mut classified: usize = 0;
    let mut first: bool = false;
    let mut second: bool = false;
    let mut i: usize = 0;
    while i < results.len()
        invariant
            i <= results@.len(),
            results@.len() * 25 <= i64::MAX,
            combined == combined_points_upto(results@, driver_teams@, c, i as int),
            scorers == scorers_upto(results@, driver_teams@, c, i as int),
            classified == classified_upto(results@, driver_teams@, c, i as int),
            first == finished_at_upto(results@, driver_teams@, c, 1, i as int),
            second == finished_at_upto(results@, driver_teams@, c, 2, i as int),
        decreases results@.len() - i,
    {
        proof {
            lemma_combined_bounds(results@, driver_teams@, c, i as int);
        }
        let r = results[i];
        if !r.dnf && r.position > 0 {
            let team = lookup_team(driver_teams, r.driver_id);
            if team == Some(c) {
                let pts: i64 = match find_race_result(results, r.driver_id) {
                    Some(f) => get_driver_finishing_points(f.position),
                    None => 0,
                };
                combined = combined + pts;
                if pts > 0 {
                    scorers = scorers + 1;
                }
                classified = classified + 1;
                if r.position == 1 {
                    first = true;
                }
                if r.position == 2 {
                    second = true;
                }
            }
        }
        i = i + 1;
    }
    (combined, scorers, classified, first, second)
}

/// The price changes after a Grand Prix.
pub struct PriceChanges {
    /// One change per race result, as (driver id, change).
    pub drivers: Vec<(i64, i64)>,
    /// One change per classified constructor, as (constructor id, change).
    pub constructors: Vec<(i64, i64)>,
}

/// Computes the price changes after a Grand Prix. Every driver result
/// yields a change; a listed constructor yields one when it has a
/// classified result. A constructor's drivers are those whose last pairing
/// in `driver_teams` names it; their finishing points add up to its combined
/// points; a constructor none of whose drivers was classified (both did not
/// finish) loses 3M; otherwise it gains 1M more when at least two of them
/// scored and 3M more for a one-two finish.
pub fn update_prices_after_gp(
    race_results: &Vec<RaceResult>,
    constructor_results: &Vec<ConstructorResult>,
    driver_teams: &Vec<(i64, i64)>,
    constructors: &Vec<i64>,
) -> (changes: PriceChanges)
    requires
        race_results@.len() * 25 <= i64::MAX,
    ensures
        changes.drivers@.len() == race_results@.len(),
        forall|i: int|
            0 <= i < race_results@.len() ==> #[trigger] changes.drivers@[i] == (
            race_results@[i].driver_id,
            driver_price_delta(race_results@[i]) as i64,
        ),
        changes.constructors@ == constructor_changes(
            constructors@,
            race_results@,
            constructor_results@,
            driver_teams@,
        ),
{
    let mut drivers: Vec<(i64, i64)> = Vec::new();
    let mut i: usize = 0;
    while i < race_results.len()
        invariant
            i <= race_results@.len(),
            drivers@.len() == i,
            forall|j: int|
                0 <= j < i ==> #[trigger] drivers@[j] == (
                race_results@[j].driver_id,
                driver_price_delta(race_results@[j]) as i64,
            ),
        decreases race_results@.len() - i,
    {
        let change = driver_price_delta_for(&race_results[i]);
        drivers.push((race_results[i].driver_id, change));
        i = i + 1;
    }
    let mut changes: Vec<(i64, i64)> = Vec::new();
    let mut k: usize = 0;
    assert(constructors@.take(0) =~= Seq::<i64>::empty());
    while k < constructors.len()
        invariant
            k <= constructors@.len(),
            race_results@.len() * 25 <= i64::MAX,
            changes@ == constructor_changes(
                constructors@.take(k as int),
                race_results@,
                constructor_results@,
                driver_teams@,
            ),
        decreases constructors@.len() - k,
    {
        assert(constructors@.take(k + 1).drop_last() =~= constructors@.take(k as int));
        let c = constructors[k];
        match find_constructor_result(constructor_results, c) {
            Some(cr) => {
                if cr.position > 0 {
                    let (combined, scorers, classified, first, second) = constructor_tally(
                        race_results,
                        driver_teams,
                        c,
                    );
                    proof {
                        lemma_combined_bounds(
                            race_results@,
                            driver_teams@,
                            c,
                            race_results@.len() as int,
                        );
                    }
                    let change: i64 = if classified == 0 {
                        -3_000_000
                    } else {
                        calculate_constructor_price_change(
                            combined,
                            scorers >= 2,
                            classified == 2 && first && second,
                        )
                    };
                    changes.push((c, change));
                }
            },
            None => {},
        }
        k = k + 1;
    }
    assert(constructors@.take(constructors@.len() as int) =~= constructors@);
    PriceChanges { drivers, constructors: changes }
}


/// Applies price changes to stored prices: each `(id, salary, change)` gives
/// `(id, new salary)`, the salary plus the change kept between 5M and 50M,
/// so every price after an update lies within the limits.
pub fn apply_price_changes(updates: &Vec<(i64, i64, i64)>) -> (prices: Vec<(i64, i64)>)
    ensures
        prices@.len() == updates@.len(),
        forall|i: int|
            0 <= i < updates@.len() ==> #[trigger] prices@[i] == (
            updates@[i].0,
            limited_price(updates@[i].1 as int, updates@[i].2 as int) as i64,
        ),
        forall|i: int| 0 <= i < prices@.len() ==> MIN_PRICE <= #[trigger] prices@[i].1 <= MAX_PRICE,
{
    let mut prices: Vec<(i64, i64)> = Vec::new();
    let mut i: usize = 0;
    while i < updates.len()
        invariant
            i <= updates@.len(),
            prices@.len() == i,
            forall|j: int|
                0 <= j < i ==> #[trigger] prices@[j] == (
                updates@[j].0,
                limited_price(updates@[j].1 as int, updates@[j].2 as int) as i64,
            ),
            forall|j: int| 0 <= j < i ==> MIN_PRICE <= #[trigger] prices@[j].1 <= MAX_PRICE,
        decreases updates@.len() - i,
    {
        let (id, salary, change) = updates[i];
        let price = apply_price_limits(salary, change);
        prices.push((id, price));
        i = i + 1;
    }
    prices
}

/// A driver's price change after a race lies between -2M and +8M, and a
/// better classified finish never changes the price less than a worse one.
pub proof fn lemma_driver_price_change_order(better: int, worse: int, r: RaceResult)
    requires
        1 <= better <= worse,
    ensures
        -2_000_000 <= driver_price_delta(r) <= 8_000_000,
        driver_price_change(better) >= driver_price_change(worse),
{
}

/// After any change the price lies between the limits, and a change that
/// keeps the price inside them is applied exactly.
pub proof fn lemma_price_limits(salary: int, change: int)
    ensures
        MIN_PRICE <= limited_price(salary, change) <= MAX_PRICE,
        MIN_PRICE <= salary + change <= MAX_PRICE ==> limited_price(salary, change) == salary
            + change,
{
}

/// The +1M "both drivers in points" bonus is paid only when at least two of
/// a classified constructor's drivers scored: without a one-two, its change
/// is the base change for its combined points, plus 1M exactly when two or
/// more of its drivers scored points.
pub proof fn lemma_both_in_points_bonus(results: Seq<RaceResult>, driver_teams: Seq<(i64, i64)>, c: i64)
    requires
        classified_upto(results, driver_teams, c, results.len() as int) > 0,
        !one_two_finish(results, driver_teams, c),
    ensures
        constructor_delta(results, driver_teams, c) == constructor_base_change(
            combined_points_upto(results, driver_teams, c, results.len() as int),
        ) + if scorers_upto(results, driver_teams, c, results.len() as int) >= 2 {
            1_000_000int
        } else {
            0
        },
        scorers_upto(results, driver_teams, c, results.len() as int) < 2 ==> constructor_delta(
            results,
            driver_teams,
            c,
        ) == constructor_base_change(
            combined_points_upto(results, driver_teams, c, results.len() as int),
        ),
{
}

/// A constructor none of whose drivers was classified loses 3M, and one
/// that took a one-two gains the 3M win bonus on top of its base change.
pub proof fn lemma_constructor_dnf_and_one_two(results: Seq<RaceResult>, driver_teams: Seq<(i64, i64)>, c: i64)
    ensures
        classified_upto(results, driver_teams, c, results.len() as int) == 0 ==> constructor_delta(
            results,
            driver_teams,
            c,
        ) == -3_000_000,
        one_two_finish(results, driver_teams, c) ==> constructor_delta(results, driver_teams, c)
            >= constructor_base_change(
            combined_points_upto(results, driver_teams, c, results.len() as int),
        ) + 3_000_000,
{
}

} // verus!
