use f1_fantasy::scoring::{
    calculate_gp_scores, calculate_team_score, driver_1_dnf, driver_2_dnf, find_constructor_result,
    find_fastest_lap_driver, find_race_result, get_constructor_finishing_points,
    get_driver_finishing_points, score_team_for_gp, ConstructorResult, RaceResult, TeamSelection,
};

fn rr(driver_id: i64, position: i64, fastest_lap: bool, dnf: bool) -> RaceResult {
    RaceResult { driver_id, position, fastest_lap, dnf }
}

#[test]
fn finishing_points_tables_agree() {
    for p in -3..30 {
        assert_eq!(get_driver_finishing_points(p), get_constructor_finishing_points(p));
    }
    assert_eq!(get_driver_finishing_points(-1), 0);
    assert_eq!(get_driver_finishing_points(i64::MAX), 0);
}

#[test]
fn better_position_never_scores_less() {
    for p in 1..30 {
        assert!(get_driver_finishing_points(p) >= get_driver_finishing_points(p + 1));
        assert!(get_driver_finishing_points(p) <= 25);
    }
}

#[test]
fn dnf_helpers() {
    assert!(driver_1_dnf(3, true));
    assert!(driver_1_dnf(0, false));
    assert!(!driver_1_dnf(3, false));
    assert!(driver_2_dnf(-2, false));
    assert!(!driver_2_dnf(1, false));
}

#[test]
fn team_score_sums_its_parts() {
    let s = calculate_team_score(1, 4, 2, true, false, Some(1), true, false, false);
    assert_eq!(s.team_id, 0);
    assert_eq!(s.driver_1_points, 25);
    assert_eq!(s.driver_2_points, 12);
    assert_eq!(s.constructor_points, 18);
    assert_eq!(s.fastest_lap_bonus, 5);
    assert_eq!(s.booster_points, 25);
    assert_eq!(s.total_points, 25 + 12 + 18 + 5 + 25);
}

#[test]
fn team_score_dnf_and_second_slot_booster() {
    let s = calculate_team_score(3, 2, 11, false, false, Some(2), false, true, false);
    assert_eq!(s.driver_1_points, 0);
    assert_eq!(s.driver_2_points, 18);
    assert_eq!(s.constructor_points, 0);
    assert_eq!(s.fastest_lap_bonus, 0);
    assert_eq!(s.booster_points, 18);
    assert_eq!(s.total_points, 36);
}

#[test]
fn team_score_booster_slot_must_match_driver() {
    let s = calculate_team_score(1, 2, 3, false, false, Some(2), true, false, false);
    assert_eq!(s.booster_points, 0);
    let s = calculate_team_score(1, 2, 3, false, true, Some(7), true, false, false);
    assert_eq!(s.booster_points, 0);
    assert_eq!(s.fastest_lap_bonus, 5);
    assert_eq!(s.total_points, 25 + 18 + 15 + 5);
}

#[test]
fn finds_first_results() {
    let results = vec![rr(44, 3, false, false), rr(1, 1, true, false), rr(44, 9, false, false)];
    assert_eq!(find_race_result(&results, 44).unwrap().position, 3);
    assert!(find_race_result(&results, 16).is_none());
    assert_eq!(find_fastest_lap_driver(&results), Some(1));
    assert_eq!(find_fastest_lap_driver(&vec![rr(5, 2, false, false)]), None);
    let cs = vec![
        ConstructorResult { constructor_id: 9, position: 4 },
        ConstructorResult { constructor_id: 9, position: 1 },
    ];
    assert_eq!(find_constructor_result(&cs, 9).unwrap().position, 4);
    assert!(find_constructor_result(&cs, 2).is_none());
}

#[test]
fn booster_doubles_boosted_driver_in_gp_scoring() {
    let results = vec![rr(10, 2, false, false), rr(20, 5, false, false)];
    let cs = vec![ConstructorResult { constructor_id: 7, position: 3 }];
    let boosted_2 = TeamSelection {
        team_id: 100,
        driver_1_id: 10,
        driver_2_id: 20,
        constructor_id: 7,
        booster_driver_id: Some(20),
    };
    let s = score_team_for_gp(&boosted_2, &results, &cs, None);
    assert_eq!(s.team_id, 100);
    assert_eq!(s.booster_points, 10);
    assert_eq!(s.total_points, 18 + 10 + 15 + 10);
    let boosted_1 = TeamSelection { booster_driver_id: Some(10), ..boosted_2 };
    let s = score_team_for_gp(&boosted_1, &results, &cs, None);
    assert_eq!(s.booster_points, 18);
    assert_eq!(s.total_points, 18 + 10 + 15 + 18);
    let unboosted = TeamSelection { booster_driver_id: None, ..boosted_2 };
    assert_eq!(score_team_for_gp(&unboosted, &results, &cs, None).total_points, 18 + 10 + 15);
    let stranger = TeamSelection { booster_driver_id: Some(99), ..boosted_2 };
    assert_eq!(score_team_for_gp(&stranger, &results, &cs, None).total_points, 18 + 10 + 15);
}

#[test]
fn missing_driver_counts_as_dnf_and_missing_constructor_scores_nothing() {
    let results = vec![rr(10, 1, false, false)];
    let team = TeamSelection {
        team_id: 1,
        driver_1_id: 10,
        driver_2_id: 30,
        constructor_id: 8,
        booster_driver_id: Some(30),
    };
    let s = score_team_for_gp(&team, &results, &vec![], Some(30));
    assert_eq!(s.driver_1_points, 25);
    assert_eq!(s.driver_2_points, 0);
    assert_eq!(s.constructor_points, 0);
    assert_eq!(s.fastest_lap_bonus, 5);
    assert_eq!(s.booster_points, 0);
    assert_eq!(s.total_points, 30);
}

#[test]
fn fastest_lap_bonus_is_given_once() {
    let results = vec![rr(10, 1, true, false), rr(20, 2, true, false)];
    let team = TeamSelection {
        team_id: 1,
        driver_1_id: 10,
        driver_2_id: 20,
        constructor_id: 8,
        booster_driver_id: None,
    };
    let s = score_team_for_gp(&team, &results, &vec![], Some(10));
    assert_eq!(s.fastest_lap_bonus, 5);
}

#[test]
fn scores_every_team_in_order() {
    let results = vec![rr(1, 1, false, false), rr(2, 10, false, false), rr(3, 12, false, true)];
    let cs = vec![ConstructorResult { constructor_id: 5, position: 2 }];
    let teams = vec![
        TeamSelection { team_id: 7, driver_1_id: 1, driver_2_id: 2, constructor_id: 5, booster_driver_id: None },
        TeamSelection { team_id: 8, driver_1_id: 3, driver_2_id: 2, constructor_id: 6, booster_driver_id: Some(2) },
    ];
    let scores = calculate_gp_scores(&teams, &results, &cs, Some(1));
    assert_eq!(scores.len(), 2);
    assert_eq!(scores[0].team_id, 7);
    assert_eq!(scores[0].total_points, 25 + 1 + 18 + 5);
    assert_eq!(scores[1].team_id, 8);
    assert_eq!(scores[1].total_points, 0 + 1 + 0 + 0 + 1);
    assert!(calculate_gp_scores(&vec![], &results, &cs, None).is_empty());
}
