use f1_fantasy::pricing::{
    apply_price_changes, apply_price_limits, calculate_constructor_price_change, calculate_driver_price_change,
    driver_price_delta_for, lookup_team, update_prices_after_gp, MAX_PRICE, MIN_PRICE,
};
use f1_fantasy::scoring::{ConstructorResult, RaceResult};

fn rr(driver_id: i64, position: i64, fastest_lap: bool, dnf: bool) -> RaceResult {
    RaceResult { driver_id, position, fastest_lap, dnf }
}

#[test]
fn driver_price_table() {
    assert_eq!(calculate_driver_price_change(1), 5_000_000);
    assert_eq!(calculate_driver_price_change(2), 3_000_000);
    assert_eq!(calculate_driver_price_change(3), 2_000_000);
    for p in 4..=6 {
        assert_eq!(calculate_driver_price_change(p), 1_000_000);
    }
    for p in 7..=10 {
        assert_eq!(calculate_driver_price_change(p), 0);
    }
    for p in 11..=25 {
        assert_eq!(calculate_driver_price_change(p), -1_000_000);
    }
    assert_eq!(calculate_driver_price_change(0), -2_000_000);
    assert_eq!(calculate_driver_price_change(-4), -2_000_000);
}

#[test]
fn driver_price_delta_bonuses() {
    // A win: +5M and the +2M win bonus, as 30M becomes 37M.
    assert_eq!(driver_price_delta_for(&rr(1, 1, false, false)), 7_000_000);
    assert_eq!(apply_price_limits(30_000_000, driver_price_delta_for(&rr(1, 1, false, false))), 37_000_000);
    // 15th place: 20M becomes 19M.
    assert_eq!(apply_price_limits(20_000_000, driver_price_delta_for(&rr(2, 15, false, false))), 19_000_000);
    assert_eq!(driver_price_delta_for(&rr(1, 1, true, false)), 8_000_000);
    assert_eq!(driver_price_delta_for(&rr(1, 8, true, false)), 1_000_000);
    assert_eq!(driver_price_delta_for(&rr(1, 3, true, true)), -2_000_000);
    assert_eq!(driver_price_delta_for(&rr(1, 0, false, false)), -2_000_000);
}

#[test]
fn constructor_price_table() {
    assert_eq!(calculate_constructor_price_change(50, false, false), 8_000_000);
    assert_eq!(calculate_constructor_price_change(43, false, false), 6_000_000);
    assert_eq!(calculate_constructor_price_change(37, false, false), 6_000_000);
    assert_eq!(calculate_constructor_price_change(40, false, false), 5_000_000);
    assert_eq!(calculate_constructor_price_change(28, false, false), 4_000_000);
    assert_eq!(calculate_constructor_price_change(39, false, false), 4_000_000);
    assert_eq!(calculate_constructor_price_change(15, false, false), 2_000_000);
    assert_eq!(calculate_constructor_price_change(27, false, false), 2_000_000);
    assert_eq!(calculate_constructor_price_change(1, false, false), 1_000_000);
    assert_eq!(calculate_constructor_price_change(14, false, false), 1_000_000);
    assert_eq!(calculate_constructor_price_change(0, false, false), -2_000_000);
    assert_eq!(calculate_constructor_price_change(-5, false, false), -3_000_000);
    assert_eq!(calculate_constructor_price_change(45, false, false), -3_000_000);
    assert_eq!(calculate_constructor_price_change(43, true, true), 10_000_000);
    assert_eq!(calculate_constructor_price_change(20, true, false), 3_000_000);
}

#[test]
fn price_limits() {
    assert_eq!(apply_price_limits(6_000_000, -2_000_000), MIN_PRICE);
    assert_eq!(apply_price_limits(49_000_000, 5_000_000), MAX_PRICE);
    assert_eq!(apply_price_limits(i64::MAX, i64::MAX), MAX_PRICE);
    assert_eq!(apply_price_limits(i64::MIN, -1), MIN_PRICE);
    assert_eq!(apply_price_limits(10_000_000, 0), 10_000_000);
}

#[test]
fn team_lookup_takes_last_pairing() {
    let pairs = vec![(1, 10), (2, 20), (1, 30)];
    assert_eq!(lookup_team(&pairs, 1), Some(30));
    assert_eq!(lookup_team(&pairs, 2), Some(20));
    assert_eq!(lookup_team(&pairs, 3), None);
}

#[test]
fn prices_after_gp() {
    let results = vec![
        rr(1, 1, false, false),
        rr(2, 4, true, false),
        rr(3, 12, false, false),
        rr(4, 0, false, true),
    ];
    let cs = vec![
        ConstructorResult { constructor_id: 100, position: 1 },
        ConstructorResult { constructor_id: 200, position: 5 },
        ConstructorResult { constructor_id: 300, position: 0 },
    ];
    let pairs = vec![(1, 100), (2, 100), (3, 200), (4, 200)];
    let changes = update_prices_after_gp(&results, &cs, &pairs, &vec![100, 200, 300, 400]);
    assert_eq!(
        changes.drivers,
        vec![(1, 7_000_000), (2, 2_000_000), (3, -1_000_000), (4, -2_000_000)]
    );
    // 100: 25 + 12 = 37 combined, both scoring, but 1st and 4th is no
    // one-two: 6M + 1M.
    // 200: only driver 3 classified, no points: -2M. 300 unclassified, 400 absent.
    assert_eq!(changes.constructors, vec![(100, 7_000_000), (200, -2_000_000)]);
}

#[test]
fn constructor_one_two_and_double_dnf() {
    let results = vec![
        rr(1, 1, false, false),
        rr(2, 2, false, false),
        rr(3, 0, false, true),
        rr(4, 7, false, true),
        rr(5, 1, false, false),
        rr(6, 3, false, false),
    ];
    let cs = vec![
        ConstructorResult { constructor_id: 100, position: 1 },
        ConstructorResult { constructor_id: 200, position: 9 },
        ConstructorResult { constructor_id: 300, position: 2 },
    ];
    let pairs = vec![(1, 100), (2, 100), (3, 200), (4, 200), (5, 300), (6, 300)];
    let changes = update_prices_after_gp(&results, &cs, &pairs, &vec![100, 200, 300]);
    // 100: 1st + 2nd = 43 combined, a one-two with both scoring: 6M + 3M + 1M.
    // 200: both drivers did not finish: -3M.
    // 300: 1st + 3rd = 40 combined, both scoring, no one-two: 5M + 1M.
    assert_eq!(
        changes.constructors,
        vec![(100, 10_000_000), (200, -3_000_000), (300, 6_000_000)]
    );
}

#[test]
fn applied_prices_stay_within_limits() {
    let updates = vec![(1, 30_000_000, 7_000_000), (2, 6_000_000, -2_000_000), (3, 49_000_000, 5_000_000)];
    assert_eq!(
        apply_price_changes(&updates),
        vec![(1, 37_000_000), (2, MIN_PRICE), (3, MAX_PRICE)]
    );
    assert_eq!(apply_price_changes(&vec![]), vec![]);
}
