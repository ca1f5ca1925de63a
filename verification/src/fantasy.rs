use vstd::prelude::*;
use rand::Rng;
use crate::text::{chars_of, str_equal, string_from_chars};

verus! {

/// The most a team's drivers and constructor may cost together.
pub const MAX_BUDGET: i32 = 100_000_000;

/// The season used when a request names none.
pub const DEFAULT_SEASON: i32 = 2026;

/// A driver that can be picked, with its fantasy salary.
#[derive(Clone, Debug)]
pub struct FantasyDriver {
    pub id: i32,
    pub name: String,
    pub code: String,
    pub team_id: Option<i32>,
    pub salary: i32,
    pub year: i32,
}

/// A constructor that can be picked, with its fantasy salary.
#[derive(Clone, Debug)]
pub struct FantasyConstructor {
    pub id: i32,
    pub name: String,
    pub salary: i32,
    pub year: i32,
}

/// A private contest; timestamps are microseconds since the Unix epoch.
#[derive(Clone, Debug)]
pub struct FantasyContest {
    pub id: i32,
    pub name: String,
    pub creator_id: i32,
    pub contest_type: String,
    pub gp_id: Option<i32>,
    pub invite_code: String,
    pub created_at: Option<i64>,
}

/// A user's membership of a contest.
#[derive(Clone, Debug)]
pub struct FantasyContestParticipant {
    pub id: i32,
    pub contest_id: i32,
    pub user_id: i32,
    pub joined_at: Option<i64>,
}

/// A user's team for one Grand Prix.
#[derive(Clone, Debug)]
pub struct FantasyTeam {
    pub id: i32,
    pub user_id: i32,
    pub contest_id: Option<i32>,
    pub gp_id: i32,
    pub driver_1_id: i32,
    pub driver_2_id: i32,
    pub constructor_id: i32,
    pub booster_driver_id: Option<i32>,
    pub budget_used: i32,
    pub is_locked: bool,
    pub total_points: i32,
    pub created_at: Option<i64>,
    pub updated_at: Option<i64>,
}

/// The picks a user submits for a Grand Prix.
#[derive(Clone, Debug)]
pub struct CreateFantasyTeamRequest {
    pub driver_1_id: i32,
    pub driver_2_id: i32,
    pub constructor_id: i32,
    pub booster_driver_id: Option<i32>,
    pub contest_id: Option<i32>,
}

/// A request to open a contest.
#[derive(Clone, Debug)]
pub struct CreateContestRequest {
    pub name: String,
    pub contest_type: String,
    pub gp_id: Option<i32>,
}

/// A team with its picks spelled out.
#[derive(Clone, Debug)]
pub struct FantasyTeamWithDetails {
    pub id: i32,
    pub user_id: i32,
    pub contest_id: Option<i32>,
    pub gp_id: i32,
    pub driver_1: FantasyDriver,
    pub driver_2: FantasyDriver,
    pub constructor: FantasyConstructor,
    pub booster_driver: Option<FantasyDriver>,
    pub budget_used: i32,
    pub is_locked: bool,
    pub total_points: i32,
    pub created_at: Option<i64>,
    pub updated_at: Option<i64>,
}

/// One line of a leaderboard.
#[derive(Clone, Debug)]
pub struct LeaderboardEntry {
    pub rank: i64,
    pub user_id: i64,
    pub username: Option<String>,
    pub total_points: i64,
    pub team: Option<FantasyTeamWithDetails>,
}

/// The optional season of a listing request.
#[derive(Clone, Copy, Debug)]
pub struct YearQuery {
    pub year: Option<i32>,
}

/// The optional Grand Prix of a contest leaderboard request.
#[derive(Clone, Copy, Debug)]
pub struct ContestLeaderboardQuery {
    pub gp_id: Option<i64>,
}

impl YearQuery {
    /// The season asked for, 2026 when none is given.
    pub fn season(&self) -> (year: i32)
        ensures
            year == match self.year {
                Some(y) => y,
                None => DEFAULT_SEASON,
            },
    {
        match self.year {
            Some(y) => y,
            None => DEFAULT_SEASON,
        }
    }
}

/// Why a contest request is refused.
#[derive(Clone, Copy, Debug, PartialEq, Eq)]
pub enum ContestRequestError {
    /// The type is neither "gp" nor "season".
    InvalidContestType,
    /// A "gp" contest names no Grand Prix.
    GpRequired,
    /// A "season" contest names a Grand Prix.
    GpNotAllowed,
}

/// The verdict on a contest request.
pub open spec fn contest_request_verdict(contest_type: Seq<char>, gp_id: Option<i32>) -> Result<
    (),
    ContestRequestError,
> {
    if contest_type != "gp"@ && contest_type != "season"@ {
        Err(ContestRequestError::InvalidContestType)
    } else if contest_type == "gp"@ && gp_id is None {
        Err(ContestRequestError::GpRequired)
    } else if contest_type == "season"@ && gp_id is Some {
        Err(ContestRequestError::GpNotAllowed)
    } else {
        Ok(())
    }
}

/// Checks a contest request: the type must be "gp" or "season", a "gp"
/// contest names its Grand Prix and a "season" contest names none.
pub fn validate_contest_request(req: &CreateContestRequest) -> (r: Result<(), ContestRequestError>)
    ensures
        r == contest_request_verdict(req.contest_type@, req.gp_id),
{
    let is_gp = str_equal(req.contest_type.as_str(), "gp");
    let is_season = str_equal(req.contest_type.as_str(), "season");
    if !is_gp && !is_season {
        Err(ContestRequestError::InvalidContestType)
    } else if is_gp && req.gp_id.is_none() {
        Err(ContestRequestError::GpRequired)
    } else if is_season && req.gp_id.is_some() {
        Err(ContestRequestError::GpNotAllowed)
    } else {
        Ok(())
    }
}

/// How a valid team submission is stored.
#[derive(Clone, Copy, Debug, PartialEq, Eq)]
pub enum TeamWrite {
    /// Replace the picks of the user's existing team.
    Update { team_id: i32, budget_used: i32 },
    /// Create the user's team for the Grand Prix.
    Insert { budget_used: i32 },
}

/// Why a team submission or change is refused.
#[derive(Clone, Copy, Debug, PartialEq, Eq)]
pub enum TeamChangeError {
    /// Both driver slots name the same driver.
    SameDriverTwice,
    /// A picked driver or the constructor does not exist.
    InvalidSelection,
    /// The booster is neither of the picked drivers.
    BoosterNotSelected,
    /// The picks cost more than the budget.
    BudgetExceeded { budget_used: i32 },
    /// The user has no team for the Grand Prix.
    TeamNotFound,
    /// The team is locked since qualifying started.
    Locked,
}

/// The total salary of a team's picks.
pub open spec fn picks_cost(d1: FantasyDriver, d2: FantasyDriver, c: FantasyConstructor) -> int {
    d1.salary + d2.salary + c.salary
}

/// Whether adding up the salaries of the picks stays within `i32`.
pub open spec fn picks_cost_fits(d1: FantasyDriver, d2: FantasyDriver, c: FantasyConstructor) -> bool {
    i32::MIN <= d1.salary + d2.salary <= i32::MAX && i32::MIN <= picks_cost(d1, d2, c)
        <= i32::MAX
}

/// The verdict on a team submission, given the picked drivers and
/// constructor as found (or not) and the user's existing team.
pub open spec fn team_change_verdict(
    req: CreateFantasyTeamRequest,
    driver_1: Option<FantasyDriver>,
    driver_2: Option<FantasyDriver>,
    constructor: Option<FantasyConstructor>,
    existing: Option<FantasyTeam>,
) -> Result<TeamWrite, TeamChangeError> {
    if req.driver_1_id == req.driver_2_id {
        Err(TeamChangeError::SameDriverTwice)
    } else if driver_1 is None || driver_2 is None || constructor is None {
        Err(TeamChangeError::InvalidSelection)
    } else {
        let d1 = driver_1->0;
        let d2 = driver_2->0;
        let c = constructor->0;
        let budget = picks_cost(d1, d2, c);
        if req.booster_driver_id is Some && req.booster_driver_id->0 != d1.id
            && req.booster_driver_id->0 != d2.id {
            Err(TeamChangeError::BoosterNotSelected)
        } else if budget > MAX_BUDGET {
            Err(TeamChangeError::BudgetExceeded { budget_used: budget as i32 })
        } else {
            match existing {
                Some(team) => if team.is_locked {
                    Err(TeamChangeError::Locked)
                } else {
                    Ok(TeamWrite::Update { team_id: team.id, budget_used: budget as i32 })
                },
                None => Ok(TeamWrite::Insert { budget_used: budget as i32 }),
            }
        }
    }
}

/// Decides how to store a team submission: the two drivers must differ,
/// every pick must exist, a booster must be one of the two drivers, the
/// picks must fit the $100M budget and an existing team must not be locked.
/// A valid submission updates the existing team or creates a new one.
pub fn plan_team_change(
    req: &CreateFantasyTeamRequest,
    driver_1: Option<&FantasyDriver>,
    driver_2: Option<&FantasyDriver>,
    constructor: Option<&FantasyConstructor>,
    existing: Option<&FantasyTeam>,
) -> (r: Result<TeamWrite, TeamChangeError>)
    requires
        driver_1 is Some && driver_2 is Some && constructor is Some && req.driver_1_id
            != req.driver_2_id && (req.booster_driver_id is None || req.booster_driver_id->0
            == driver_1->0.id || req.booster_driver_id->0 == driver_2->0.id) ==> picks_cost_fits(
            *driver_1->0,
            *driver_2->0,
            *constructor->0,
        ),
    ensures
        r == team_change_verdict(
            *req,
            match driver_1 {
                Some(d) => Some(*d),
                None => None,
            },
            match driver_2 {
                Some(d) => Some(*d),
                None => None,
            },
            match constructor {
                Some(c) => Some(*c),
                None => None,
            },
            match existing {
                Some(t) => Some(*t),
                None => None,
            },
        ),
        r matches Ok(w) ==> req.driver_1_id != req.driver_2_id && match w {
            TeamWrite::Update { budget_used, .. } => budget_used <= MAX_BUDGET,
            TeamWrite::Insert { budget_used } => budget_used <= MAX_BUDGET,
        },
{
    if req.driver_1_id == req.driver_2_id {
        return Err(TeamChangeError::SameDriverTwice);
    }
    let (d1, d2, c) = match (driver_1, driver_2, constructor) {
        (Some(d1), Some(d2), Some(c)) => (d1, d2, c),
        _ => {
            return Err(TeamChangeError::InvalidSelection);
        },
    };
    if let Some(booster_id) = req.booster_driver_id {
        if booster_id != d1.id && booster_id != d2.id {
            return Err(TeamChangeError::BoosterNotSelected);
        }
    }
    let budget_used = d1.salary + d2.salary + c.salary;
    if budget_used > MAX_BUDGET {
        return Err(TeamChangeError::BudgetExceeded { budget_used });
    }
    match existing {
        Some(team) => {
            if team.is_locked {
                Err(TeamChangeError::Locked)
            } else {
                Ok(TeamWrite::Update { team_id: team.id, budget_used })
            }
        },
        None => Ok(TeamWrite::Insert { budget_used }),
    }
}

/// The verdict on changing or deleting the user's team for a Grand Prix.
pub open spec fn team_edit_verdict(team: Option<FantasyTeam>) -> Result<i32, TeamChangeError> {
    match team {
        Some(t) => if t.is_locked {
            Err(TeamChangeError::Locked)
        } else {
            Ok(t.id)
        },
        None => Err(TeamChangeError::TeamNotFound),
    }
}

/// Whether the user's team may still be changed or deleted: it must exist
/// and not be locked. Gives the team's id.
pub fn check_team_editable(team: Option<&FantasyTeam>) -> (r: Result<i32, TeamChangeError>)
    ensures
        r == team_edit_verdict(
            match team {
                Some(t) => Some(*t),
                None => None,
            },
        ),
{
    match team {
        Some(t) => {
            if t.is_locked {
                Err(TeamChangeError::Locked)
            } else {
                Ok(t.id)
            }
        },
        None => Err(TeamChangeError::TeamNotFound),
    }
}

/// A locked team is never changed: whatever is submitted for a Grand Prix
/// whose existing team is locked, the submission is refused.
pub proof fn lemma_locked_team_never_written(
    req: CreateFantasyTeamRequest,
    driver_1: Option<FantasyDriver>,
    driver_2: Option<FantasyDriver>,
    constructor: Option<FantasyConstructor>,
    team: FantasyTeam,
)
    requires
        team.is_locked,
    ensures
        team_change_verdict(req, driver_1, driver_2, constructor, Some(team)) is Err,
{
}

/// The verdict on setting the booster of the user's team for a Grand Prix:
/// the team must exist and not be locked, and a booster must be one of the
/// team's two drivers (no booster clears it). Gives the team's id.
pub open spec fn booster_verdict(team: Option<FantasyTeam>, booster: Option<i32>) -> Result<
    i32,
    TeamChangeError,
> {
    match team {
        None => Err(TeamChangeError::TeamNotFound),
        Some(t) => if t.is_locked {
            Err(TeamChangeError::Locked)
        } else {
            match booster {
                Some(b) => if b != t.driver_1_id && b != t.driver_2_id {
                    Err(TeamChangeError::BoosterNotSelected)
                } else {
                    Ok(t.id)
                },
                None => Ok(t.id),
            }
        },
    }
}

/// Decides a request to set the booster of the user's team: the team must
/// exist and not be locked, and the booster, when one is named, must be one
/// of the team's two drivers. So a booster that is set stays one of them.
pub fn check_booster(team: Option<&FantasyTeam>, booster: Option<i32>) -> (r: Result<
    i32,
    TeamChangeError,
>)
    ensures
        r == booster_verdict(
            match team {
                Some(t) => Some(*t),
                None => None,
            },
            booster,
        ),
        r is Ok ==> (team is Some && (booster matches Some(b) ==> (b == team->0.driver_1_id || b
            == team->0.driver_2_id))),
{
    match team {
        None => Err(TeamChangeError::TeamNotFound),
        Some(t) => {
            if t.is_locked {
                Err(TeamChangeError::Locked)
            } else {
                match booster {
                    Some(b) => {
                        if b != t.driver_1_id && b != t.driver_2_id {
                            Err(TeamChangeError::BoosterNotSelected)
                        } else {
                            Ok(t.id)
                        }
                    },
                    None => Ok(t.id),
                }
            }
        },
    }
}

/// Why joining or leaving a contest is refused.
#[derive(Clone, Copy, Debug, PartialEq, Eq)]
pub enum MembershipError {
    /// No contest has the invite code.
    ContestNotFound,
    /// The user already takes part.
    AlreadyJoined,
    /// The user does not take part.
    NotAParticipant,
}

/// Decides a request to join a contest: the contest must exist and the
/// user must not take part yet. Gives the contest's id.
pub fn check_join(contest: Option<&FantasyContest>, already_joined: bool) -> (r: Result<
    i32,
    MembershipError,
>)
    ensures
        r == match contest {
            None => Err(MembershipError::ContestNotFound),
            Some(c) => if already_joined {
                Err(MembershipError::AlreadyJoined)
            } else {
                Ok(c.id)
            },
        },
{
    match contest {
        None => Err(MembershipError::ContestNotFound),
        Some(c) => {
            if already_joined {
                Err(MembershipError::AlreadyJoined)
            } else {
                Ok(c.id)
            }
        },
    }
}

/// Decides the outcome of leaving a contest from the number of memberships
/// removed: none means the user did not take part.
pub fn check_leave(rows_removed: u64) -> (r: Result<(), MembershipError>)
    ensures
        r == (if rows_removed == 0 {
            Err(MembershipError::NotAParticipant)
        } else {
            Ok(())
        }),
{
    if rows_removed == 0 {
        Err(MembershipError::NotAParticipant)
    } else {
        Ok(())
    }
}

/// The number of participants as reported, the count truncated to `i32`.
pub fn participant_count(participants: &Vec<FantasyContestParticipant>) -> (n: i32)
    ensures
        n == participants@.len() as i32,
{
    #[verifier::truncate]
    (participants.len() as i32)
}

/// One ranked row of a leaderboard query:
/// (user id, team id or count, username, total points).
pub type LeaderboardRow = (i32, i32, Option<String>, i32);

/// The leaderboard line for the row at `index`: ranked `index + 1`.
pub open spec fn leaderboard_line(
    row: LeaderboardRow,
    index: int,
    team: Option<FantasyTeamWithDetails>,
) -> LeaderboardEntry {
    LeaderboardEntry {
        rank: (index + 1) as i64,
        user_id: row.0 as i64,
        username: row.2,
        total_points: row.3 as i64,
        team,
    }
}

/// Ranks leaderboard rows already ordered by points: the first row is ranked
/// 1, the next 2, and so on; each line carries the team given for it.
pub fn build_leaderboard(rows: &Vec<LeaderboardRow>, teams: Vec<Option<FantasyTeamWithDetails>>) -> (entries: Vec<
    LeaderboardEntry,
>)
    requires
        teams@.len() == rows@.len(),
        rows@.len() < i64::MAX,
    ensures
        entries@.len() == rows@.len(),
        forall|i: int|
            0 <= i < rows@.len() ==> #[trigger] entries@[i] == leaderboard_line(
                rows@[i],
                i,
                teams@[i],
            ),
{
    let mut entries: Vec<LeaderboardEntry> = Vec::new();
    let mut teams = teams;
    let ghost teams0 = teams@;
    let mut i: usize = 0;
    while i < rows.len()
        invariant
            rows@.len() < i64::MAX,
            teams0.len() == rows@.len(),
            i <= rows@.len(),
            teams@ == teams0.skip(i as int),
            entries@.len() == i,
            forall|j: int|
                0 <= j < i ==> #[trigger] entries@[j] == leaderboard_line(rows@[j], j, teams0[j]),
        decreases rows@.len() - i,
    {
        let team = teams.remove(0);
        assert(teams0.skip(i as int).drop_first() =~= teams0.skip(i + 1));
        let row = &rows[i];
        let username = match &row.2 {
            Some(u) => Some(u.clone()),
            None => None,
        };
        entries.push(
            LeaderboardEntry {
                rank: (i + 1) as i64,
                user_id: row.0 as i64,
                username,
                total_points: row.3 as i64,
                team,
            },
        );
        i = i + 1;
    }
    entries
}

/// Assembles a team with its picks; `None` when a pick is missing.
pub fn team_with_details(
    team: &FantasyTeam,
    driver_1: Option<FantasyDriver>,
    driver_2: Option<FantasyDriver>,
    constructor: Option<FantasyConstructor>,
    booster_driver: Option<FantasyDriver>,
) -> (r: Option<FantasyTeamWithDetails>)
    ensures
        r == match (driver_1, driver_2, constructor) {
            (Some(d1), Some(d2), Some(c)) => Some(
                FantasyTeamWithDetails {
                    id: team.id,
                    user_id: team.user_id,
                    contest_id: team.contest_id,
                    gp_id: team.gp_id,
                    driver_1: d1,
                    driver_2: d2,
                    constructor: c,
                    booster_driver,
                    budget_used: team.budget_used,
                    is_locked: team.is_locked,
                    total_points: team.total_points,
                    created_at: team.created_at,
                    updated_at: team.updated_at,
                },
            ),
            _ => None,
        },
{
    match (driver_1, driver_2, constructor) {
        (Some(d1), Some(d2), Some(c)) => Some(
            FantasyTeamWithDetails {
                id: team.id,
                user_id: team.user_id,
                contest_id: team.contest_id,
                gp_id: team.gp_id,
                driver_1: d1,
                driver_2: d2,
                constructor: c,
                booster_driver,
                budget_used: team.budget_used,
                is_locked: team.is_locked,
                total_points: team.total_points,
                created_at: team.created_at,
                updated_at: team.updated_at,
            },
        ),
        _ => None,
    }
}


/// `rand::rngs::ThreadRng`.
#[verifier::external_type_specification]
#[verifier::external_body]
pub struct ExThreadRng(rand::rngs::ThreadRng);

/// `rand::thread_rng()`: the thread's random generator.
#[verifier::external_body]
fn thread_rng() -> rand::rngs::ThreadRng {
    rand::thread_rng()
}

/// `Rng::gen_range(0..bound)`: a random index below `bound` (which must be
/// positive, as the range may not be empty).
#[verifier::external_body]
fn random_index(rng: &mut rand::rngs::ThreadRng, bound: usize) -> (r: usize)
    requires
        bound > 0,
    ensures
        r < bound,
{
    rng.gen_range(0..bound)
}

/// The characters an invite code is drawn from.
pub open spec fn invite_charset() -> Seq<char> {
    "ABCDEFGHIJKLMNOPQRSTUVWXYZ0123456789"@
}

/// The length of an invite code.
pub const INVITE_CODE_LEN: usize = 6;

/// A random invite code: six characters, each drawn from the capital
/// letters and digits.
pub fn generate_invite_code() -> (code: String)
    ensures
        code@.len() == INVITE_CODE_LEN,
        forall|i: int| 0 <= i < code@.len() ==> invite_charset().contains(#[trigger] code@[i]),
{
    let charset = chars_of("ABCDEFGHIJKLMNOPQRSTUVWXYZ0123456789");
    proof {
        reveal_strlit("ABCDEFGHIJKLMNOPQRSTUVWXYZ0123456789");
    }
    let mut rng = thread_rng();
    let mut code: Vec<char> = Vec::new();
    let mut i: usize = 0;
    while i < INVITE_CODE_LEN
        invariant
            charset@ == invite_charset(),
            charset@.len() == 36,
            i <= INVITE_CODE_LEN,
            code@.len() == i,
            forall|j: int| 0 <= j < i ==> invite_charset().contains(#[trigger] code@[j]),
        decreases INVITE_CODE_LEN - i,
    {
        let k = random_index(&mut rng, charset.len());
        code.push(charset[k]);
        assert(invite_charset()[k as int] == code@[i as int]);
        i = i + 1;
    }
    string_from_chars(&code)
}

/// Every character of an invite code is a capital letter or a digit.
pub proof fn lemma_invite_code_alphanumeric(c: char)
    requires
        invite_charset().contains(c),
    ensures
        ('A' <= c <= 'Z') || ('0' <= c <= '9'),
{
    reveal_strlit("ABCDEFGHIJKLMNOPQRSTUVWXYZ0123456789");
    let k = choose|k: int| 0 <= k < invite_charset().len() && invite_charset()[k] == c;
}

} // verus!
