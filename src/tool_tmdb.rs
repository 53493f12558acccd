use vstd::prelude::*;

verus! {

/// The arguments of a TMDB TV-show search.
#[derive(Debug)]
pub struct TMDBSearchArgs {
    pub query: String,
    pub year: Option<i16>,
}

/// The arguments of a TMDB movie search.
#[derive(Debug)]
pub struct TMDBMovieSearchArgs {
    pub query: String,
    pub year: Option<i16>,
}

/// The arguments of a season lookup: the TMDB id of a TV show.
#[derive(Debug, Clone, Copy, PartialEq, Eq, Structural)]
pub struct TMDBSeasonArgs {
    pub tv_id: u64,
}

#[derive(Debug)]
pub struct TMDBError {
    pub message: String,
}

impl TMDBError {
    pub fn new(message: String) -> (r: Self)
        ensures
            r.message == message,
    {
        TMDBError { message }
    }
}

/// One season of a TV show, from its episode groups or from its own details.
#[derive(Debug)]
pub struct Season {
    pub id: String,
    pub name: String,
    pub number: i32,
    pub first_air_date: Option<String>,
}

#[derive(Debug)]
pub struct TMDBSeasonResult {
    pub data: Vec<Season>,
}

/// The episode-group type that TMDB uses for seasons as the studio ordered them.
pub const SEASON_GROUP_TYPE: u8 = 6;

/// The episode group whose seasons are listed: the last of the season type,
/// else the first group, else none.
pub open spec fn chosen_group(types: Seq<u8>) -> Option<int> {
    if exists|i: int| 0 <= i < types.len() && types[i] == SEASON_GROUP_TYPE {
        Some(
            choose|i: int|
                0 <= i < types.len() && types[i] == SEASON_GROUP_TYPE && forall|k: int|
                    i < k < types.len() ==> types[k] != SEASON_GROUP_TYPE,
        )
    } else if types.len() > 0 {
        Some(0)
    } else {
        None
    }
}

/// Picks, by the types of a show's episode groups, the group whose seasons are
/// listed.
pub fn pick_episode_group(group_types: &Vec<u8>) -> (r: Option<usize>)
    ensures
        match r {
            Some(i) => chosen_group(group_types@) == Some(i as int),
            None => chosen_group(group_types@) is None,
        },
{
    let mut found: Option<usize> = None;
    let mut i: usize = 0;
    while i < group_types.len()
        invariant
            i <= group_types@.len(),
            match found {
                Some(g) => g < i && group_types@[g as int] == SEASON_GROUP_TYPE && forall|k: int|
                    g < k < i ==> group_types@[k] != SEASON_GROUP_TYPE,
                None => forall|k: int| 0 <= k < i ==> group_types@[k] != SEASON_GROUP_TYPE,
            },
        decreases group_types.len() - i,
    {
        if group_types[i] == SEASON_GROUP_TYPE {
            found = Some(i);
        }
        i = i + 1;
    }
    let ghost s = group_types@;
    match found {
        Some(g) => {
            proof {
                let c = choose|c: int|
                    0 <= c < s.len() && s[c] == SEASON_GROUP_TYPE && forall|k: int|
                        c < k < s.len() ==> s[k] != SEASON_GROUP_TYPE;
                assert(c == g as int) by {
                    if c < g {
                        assert(s[g as int] != SEASON_GROUP_TYPE);
                    } else if c > g {
                        assert(s[c] != SEASON_GROUP_TYPE);
                    }
                }
            }
            Some(g)
        },
        None => {
            if group_types.len() > 0 {
                Some(0)
            } else {
                None
            }
        },
    }
}

} // verus!
