use f1_fantasy::fantasy::{
    build_leaderboard, check_booster, check_join, check_leave, check_team_editable, generate_invite_code,
    participant_count, plan_team_change, team_with_details, validate_contest_request,
    ContestLeaderboardQuery, ContestRequestError, CreateContestRequest, CreateFantasyTeamRequest,
    FantasyConstructor, FantasyContest, FantasyContestParticipant, FantasyDriver, FantasyTeam,
    MembershipError, TeamChangeError, TeamWrite, YearQuery, INVITE_CODE_LEN, MAX_BUDGET,
};

fn driver(id: i32, salary: i32) -> FantasyDriver {
    FantasyDriver { id, name: format!("D{}", id), code: "DRV".to_string(), team_id: Some(1), salary, year: 2026 }
}

fn constructor(id: i32, salary: i32) -> FantasyConstructor {
    FantasyConstructor { id, name: format!("C{}", id), salary, year: 2026 }
}

fn team(id: i32, is_locked: bool) -> FantasyTeam {
    FantasyTeam {
        id,
        user_id: 3,
        contest_id: None,
        gp_id: 12,
        driver_1_id: 1,
        driver_2_id: 2,
        constructor_id: 9,
        booster_driver_id: None,
        budget_used: 50_000_000,
        is_locked,
        total_points: 0,
        created_at: None,
        updated_at: None,
    }
}

fn request(d1: i32, d2: i32, booster: Option<i32>) -> CreateFantasyTeamRequest {
    CreateFantasyTeamRequest { driver_1_id: d1, driver_2_id: d2, constructor_id: 9, booster_driver_id: booster, contest_id: None }
}

fn contest_request(kind: &str, gp_id: Option<i32>) -> CreateContestRequest {
    CreateContestRequest { name: "Friends".to_string(), contest_type: kind.to_string(), gp_id }
}

#[test]
fn contest_requests() {
    assert_eq!(validate_contest_request(&contest_request("gp", Some(4))), Ok(()));
    assert_eq!(validate_contest_request(&contest_request("season", None)), Ok(()));
    assert_eq!(validate_contest_request(&contest_request("league", None)), Err(ContestRequestError::InvalidContestType));
    assert_eq!(validate_contest_request(&contest_request("gp", None)), Err(ContestRequestError::GpRequired));
    assert_eq!(validate_contest_request(&contest_request("season", Some(4))), Err(ContestRequestError::GpNotAllowed));
}

#[test]
fn team_submissions() {
    let d1 = driver(1, 30_000_000);
    let d2 = driver(2, 40_000_000);
    let c = constructor(9, 30_000_000);
    assert_eq!(
        plan_team_change(&request(1, 2, Some(2)), Some(&d1), Some(&d2), Some(&c), None),
        Ok(TeamWrite::Insert { budget_used: 100_000_000 })
    );
    assert_eq!(
        plan_team_change(&request(1, 2, None), Some(&d1), Some(&d2), Some(&c), Some(&team(5, false))),
        Ok(TeamWrite::Update { team_id: 5, budget_used: MAX_BUDGET })
    );
    assert_eq!(
        plan_team_change(&request(1, 2, None), Some(&d1), Some(&d2), Some(&c), Some(&team(5, true))),
        Err(TeamChangeError::Locked)
    );
    assert_eq!(
        plan_team_change(&request(1, 1, None), Some(&d1), Some(&d1), Some(&c), None),
        Err(TeamChangeError::SameDriverTwice)
    );
    assert_eq!(
        plan_team_change(&request(1, 2, None), Some(&d1), None, Some(&c), None),
        Err(TeamChangeError::InvalidSelection)
    );
    assert_eq!(
        plan_team_change(&request(1, 2, Some(7)), Some(&d1), Some(&d2), Some(&c), None),
        Err(TeamChangeError::BoosterNotSelected)
    );
    let rich = constructor(9, 30_000_001);
    assert_eq!(
        plan_team_change(&request(1, 2, None), Some(&d1), Some(&d2), Some(&rich), None),
        Err(TeamChangeError::BudgetExceeded { budget_used: 100_000_001 })
    );
}

#[test]
fn editing_teams() {
    assert_eq!(check_team_editable(Some(&team(8, false))), Ok(8));
    assert_eq!(check_team_editable(Some(&team(8, true))), Err(TeamChangeError::Locked));
    assert_eq!(check_team_editable(None), Err(TeamChangeError::TeamNotFound));
}

#[test]
fn memberships() {
    let c = FantasyContest {
        id: 4,
        name: "Friends".to_string(),
        creator_id: 1,
        contest_type: "season".to_string(),
        gp_id: None,
        invite_code: "ABC123".to_string(),
        created_at: None,
    };
    assert_eq!(check_join(Some(&c), false), Ok(4));
    assert_eq!(check_join(Some(&c), true), Err(MembershipError::AlreadyJoined));
    assert_eq!(check_join(None, false), Err(MembershipError::ContestNotFound));
    assert_eq!(check_leave(0), Err(MembershipError::NotAParticipant));
    assert_eq!(check_leave(1), Ok(()));
    let p = FantasyContestParticipant { id: 1, contest_id: 4, user_id: 2, joined_at: None };
    assert_eq!(participant_count(&vec![p.clone(), p]), 2);
}

#[test]
fn leaderboard_ranks_rows_in_order() {
    let rows = vec![(5, 2, Some("max".to_string()), 80), (9, 1, None, 40)];
    let board = build_leaderboard(&rows, vec![None, None]);
    assert_eq!(board.len(), 2);
    assert_eq!(board[0].rank, 1);
    assert_eq!(board[0].user_id, 5);
    assert_eq!(board[0].username.as_deref(), Some("max"));
    assert_eq!(board[0].total_points, 80);
    assert_eq!(board[1].rank, 2);
    assert_eq!(board[1].username, None);
    assert!(board[1].team.is_none());
}

#[test]
fn team_details() {
    let t = team(3, false);
    let details = team_with_details(&t, Some(driver(1, 1)), Some(driver(2, 2)), Some(constructor(9, 3)), None).unwrap();
    assert_eq!(details.id, 3);
    assert_eq!(details.driver_2.id, 2);
    assert!(details.booster_driver.is_none());
    assert!(team_with_details(&t, Some(driver(1, 1)), None, Some(constructor(9, 3)), None).is_none());
}

#[test]
fn invite_codes() {
    for _ in 0..50 {
        let code = generate_invite_code();
        assert_eq!(code.chars().count(), INVITE_CODE_LEN);
        assert!(code.chars().all(|c| c.is_ascii_uppercase() || c.is_ascii_digit()));
    }
}

#[test]
fn queries() {
    assert_eq!(YearQuery { year: None }.season(), 2026);
    assert_eq!(YearQuery { year: Some(2025) }.season(), 2025);
    let q = ContestLeaderboardQuery { gp_id: Some(3) };
    assert_eq!(q.gp_id, Some(3));
}

#[test]
fn booster_must_be_a_team_driver() {
    let open = team(4, false);
    assert_eq!(check_booster(Some(&open), Some(1)), Ok(4));
    assert_eq!(check_booster(Some(&open), Some(2)), Ok(4));
    assert_eq!(check_booster(Some(&open), None), Ok(4));
    assert_eq!(check_booster(Some(&open), Some(3)), Err(TeamChangeError::BoosterNotSelected));
    assert_eq!(check_booster(Some(&team(4, true)), Some(1)), Err(TeamChangeError::Locked));
    assert_eq!(check_booster(None, Some(1)), Err(TeamChangeError::TeamNotFound));
}
