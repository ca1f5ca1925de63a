use vstd::prelude::*;
use crate::text::str_equal;

verus! {

/// The name this service gives to a session that OpenF1 calls `external`;
/// sprint sessions have none.
pub open spec fn session_name_for(external: Seq<char>) -> Option<Seq<char>> {
    if external == "Practice 1"@ {
        Some("FirstPractice"@)
    } else if external == "Practice 2"@ {
        Some("SecondPractice"@)
    } else if external == "Practice 3"@ {
        Some("ThirdPractice"@)
    } else if external == "Qualifying"@ {
        Some("Qualifying"@)
    } else if external == "Race"@ {
        Some("Race"@)
    } else {
        None
    }
}

/// Maps an OpenF1 session name to this service's session type.
pub fn map_session_name(external: &str) -> (r: Option<&'static str>)
    ensures
        match r {
            Some(name) => session_name_for(external@) == Some(name@),
            None => session_name_for(external@) is None,
        },
{
    if str_equal(external, "Practice 1") {
        Some("FirstPractice")
    } else if str_equal(external, "Practice 2") {
        Some("SecondPractice")
    } else if str_equal(external, "Practice 3") {
        Some("ThirdPractice")
    } else if str_equal(external, "Qualifying") {
        Some("Qualifying")
    } else if str_equal(external, "Race") {
        Some("Race")
    } else {
        None
    }
}

} // verus!
