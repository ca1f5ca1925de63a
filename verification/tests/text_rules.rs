use f1_fantasy::auth::{bearer_token, is_admin, strip_prefix_chars};
use f1_fantasy::race_utils::map_session_name;
use f1_fantasy::sessions::{date_part, season_year, standings_limit};
use f1_fantasy::telemetry::split_lap_time;
use f1_fantasy::text::{
    chars_equal, chars_of, contains_chars, lowercase_chars, parse_i64, parse_u32, remove_spaces,
    str_equal, string_from_chars,
};

#[test]
fn parses_u32_like_std() {
    for s in ["0", "30", "+7", "4294967295", "", "+", "-1", "4294967296", "12a", " 5", "99999999999999999999"] {
        assert_eq!(parse_u32(s), s.parse::<u32>().ok(), "input {:?}", s);
    }
}

#[test]
fn parses_i64_like_std() {
    for s in [
        "2026", "-5", "+5", "-", "+", "", "9223372036854775807", "9223372036854775808",
        "-9223372036854775808", "-9223372036854775809", "20x6", "00012",
    ] {
        assert_eq!(parse_i64(s), s.parse::<i64>().ok(), "input {:?}", s);
    }
}

#[test]
fn standings_limit_and_season_year_defaults() {
    assert_eq!(standings_limit(None), 30);
    assert_eq!(standings_limit(Some("5")), 5);
    assert_eq!(standings_limit(Some("five")), 30);
    assert_eq!(season_year(Some("2024")), 2024);
    assert_eq!(season_year(Some("next")), 2026);
    assert_eq!(season_year(None), 2026);
}

#[test]
fn character_helpers() {
    let a = chars_of("Red Bull");
    assert_eq!(a, vec!['R', 'e', 'd', ' ', 'B', 'u', 'l', 'l']);
    assert_eq!(string_from_chars(&a), "Red Bull");
    assert!(chars_equal(&a, &chars_of("Red Bull")));
    assert!(!chars_equal(&a, &chars_of("Red")));
    assert!(str_equal("Race", "Race"));
    assert!(!str_equal("Race", "race"));
    assert_eq!(remove_spaces(&a), chars_of("RedBull"));
    assert_eq!(lowercase_chars("Red Bull Racing"), chars_of("red bull racing"));
}

#[test]
fn substring_search() {
    let hay = chars_of("oracle red bull racing");
    assert!(contains_chars(&hay, &chars_of("red bull")));
    assert!(contains_chars(&hay, &chars_of("")));
    assert!(contains_chars(&hay, &chars_of("racing")));
    assert!(!contains_chars(&hay, &chars_of("ferrari")));
    assert!(!contains_chars(&chars_of("ab"), &chars_of("abc")));
}

#[test]
fn bearer_tokens() {
    assert_eq!(bearer_token("Bearer abc.def"), Some("abc.def".to_string()));
    assert_eq!(bearer_token("Bearer "), Some(String::new()));
    assert_eq!(bearer_token("bearer abc"), None);
    assert_eq!(bearer_token("Basic abc"), None);
    assert_eq!(bearer_token("Bear"), None);
    assert_eq!(strip_prefix_chars(&chars_of("abc"), &chars_of("ab")), Some(vec!['c']));
}

#[test]
fn admin_subject() {
    assert!(is_admin("\"admin@gmail.com\""));
    assert!(!is_admin("admin@gmail.com"));
    assert!(!is_admin("\"user@gmail.com\""));
}

#[test]
fn session_names() {
    assert_eq!(map_session_name("Practice 1"), Some("FirstPractice"));
    assert_eq!(map_session_name("Practice 2"), Some("SecondPractice"));
    assert_eq!(map_session_name("Practice 3"), Some("ThirdPractice"));
    assert_eq!(map_session_name("Qualifying"), Some("Qualifying"));
    assert_eq!(map_session_name("Race"), Some("Race"));
    assert_eq!(map_session_name("Sprint"), None);
    assert_eq!(map_session_name("race"), None);
}

#[test]
fn date_parts() {
    assert_eq!(date_part("2024-03-02T15:00:00+00:00"), "2024-03-02");
    assert_eq!(date_part("2024-03-02"), "2024-03-02");
    assert_eq!(date_part(""), "");
}

#[test]
fn lap_time_parts() {
    assert_eq!(split_lap_time("1:23.456"), Some(("1".to_string(), "23.456".to_string())));
    assert_eq!(split_lap_time(":5"), Some((String::new(), "5".to_string())));
    assert_eq!(split_lap_time(""), None);
    assert_eq!(split_lap_time("83.456"), None);
    assert_eq!(split_lap_time("1:2:3"), None);
}
