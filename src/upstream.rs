use crate::aggregate::{aggregate, aggregation_of, AggregationResult, OwnedGame};
use crate::catalog::SizeCatalog;
use vstd::prelude::*;
use vstd::string::StringExecFns;

verus! {

/// The success flag with which the resolution service reports a match.
pub const RESOLVE_MATCHED: u8 = 1;

/// HTTP status for a failure of an upstream service.
pub const STATUS_UPSTREAM_FAILURE: u16 = 500;

/// HTTP status for a profile whose games are not disclosed.
pub const STATUS_PRIVATE_PROFILE: u16 = 400;

/// Why a call to an upstream service gave no decoded reply.
#[derive(Clone, Debug)]
pub enum UpstreamFailure {
    /// The service could not be reached, or answered with a failure status.
    Transport(String),
    /// The reply's body did not decode into the expected structure.
    Malformed(String),
}

/// Why an identifier could not be resolved.
#[derive(Clone, Debug)]
pub enum ResolveError {
    Transport(String),
    Malformed(String),
    /// The service answered, and knows no account under that name.
    NotResolved,
}

/// Why the owned games of an account could not be had.
#[derive(Clone, Debug)]
pub enum FetchError {
    Transport(String),
    Malformed(String),
    /// The service answered without any games collection: the profile is
    /// private or restricted.
    PrivateProfile,
}

/// The resolution service's reply, decoded.
#[derive(Clone, Debug)]
pub struct ResolveReply {
    pub success: u8,
    pub steamid: Option<String>,
}

/// The owned-games service's reply, decoded.
#[derive(Clone, Debug)]
pub struct OwnedGamesReply {
    pub game_count: Option<u32>,
    pub games: Option<Vec<OwnedGame>>,
}

pub open spec fn resolve_url_text(key: Seq<char>, vanity: Seq<char>) -> Seq<char> {
    "https://api.steampowered.com/ISteamUser/ResolveVanityURL/v0001/?key="@ + key
        + "&vanityurl="@ + vanity
}

pub open spec fn owned_games_url_text(key: Seq<char>, account: Seq<char>) -> Seq<char> {
    "https://api.steampowered.com/IPlayerService/GetOwnedGames/v0001/?key="@ + key
        + "&steamid="@ + account + "&format=json&include_appinfo=true"@
}

/// The request that asks the resolution service for the account named `vanity`.
pub fn resolve_url(key: &str, vanity: &str) -> (r: String)
    ensures
        r@ == resolve_url_text(key@, vanity@),
{
    let mut url = String::new();
    url.append("https://api.steampowered.com/ISteamUser/ResolveVanityURL/v0001/?key=");
    url.append(key);
    url.append("&vanityurl=");
    url.append(vanity);
    url
}

/// The request that asks the owned-games service for the games of `account`,
/// with their names.
pub fn owned_games_url(key: &str, account: &str) -> (r: String)
    ensures
        r@ == owned_games_url_text(key@, account@),
{
    let mut url = String::new();
    url.append("https://api.steampowered.com/IPlayerService/GetOwnedGames/v0001/?key=");
    url.append(key);
    url.append("&steamid=");
    url.append(account);
    url.append("&format=json&include_appinfo=true");
    url
}

/// The canonical identifier in a resolution reply, or why there is none.
pub fn resolve_outcome(reply: Result<ResolveReply, UpstreamFailure>) -> (r: Result<
    String,
    ResolveError,
>)
    ensures
        match reply {
            Err(UpstreamFailure::Transport(m)) => r == Err::<String, ResolveError>(
                ResolveError::Transport(m),
            ),
            Err(UpstreamFailure::Malformed(m)) => r == Err::<String, ResolveError>(
                ResolveError::Malformed(m),
            ),
            Ok(rep) => match rep.steamid {
                Some(id) => if rep.success == RESOLVE_MATCHED {
                    r == Ok::<String, ResolveError>(id)
                } else {
                    r == Err::<String, ResolveError>(ResolveError::NotResolved)
                },
                None => r == Err::<String, ResolveError>(ResolveError::NotResolved),
            },
        },
{
    match reply {
        Err(UpstreamFailure::Transport(m)) => Err(ResolveError::Transport(m)),
        Err(UpstreamFailure::Malformed(m)) => Err(ResolveError::Malformed(m)),
        Ok(rep) => {
            if rep.success == RESOLVE_MATCHED {
                match rep.steamid {
                    Some(id) => Ok(id),
                    None => Err(ResolveError::NotResolved),
                }
            } else {
                Err(ResolveError::NotResolved)
            }
        },
    }
}

/// The owned games in a reply, or why there are none: a reply without a games
/// collection marks a private profile, which an empty collection does not.
pub fn owned_games_outcome(reply: Result<OwnedGamesReply, UpstreamFailure>) -> (r: Result<
    Vec<OwnedGame>,
    FetchError,
>)
    ensures
        match reply {
            Err(UpstreamFailure::Transport(m)) => r == Err::<Vec<OwnedGame>, FetchError>(
                FetchError::Transport(m),
            ),
            Err(UpstreamFailure::Malformed(m)) => r == Err::<Vec<OwnedGame>, FetchError>(
                FetchError::Malformed(m),
            ),
            Ok(rep) => match rep.games {
                Some(g) => r == Ok::<Vec<OwnedGame>, FetchError>(g),
                None => r == Err::<Vec<OwnedGame>, FetchError>(FetchError::PrivateProfile),
            },
        },
{
    match reply {
        Err(UpstreamFailure::Transport(m)) => Err(FetchError::Transport(m)),
        Err(UpstreamFailure::Malformed(m)) => Err(FetchError::Malformed(m)),
        Ok(rep) => match rep.games {
            Some(g) => Ok(g),
            None => Err(FetchError::PrivateProfile),
        },
    }
}

/// The size summary of the library in an owned-games reply, or why there is
/// none.
pub fn calculate_size(reply: Result<OwnedGamesReply, UpstreamFailure>, catalog: &SizeCatalog) -> (r:
    Result<AggregationResult, FetchError>)
    ensures
        match reply {
            Err(UpstreamFailure::Transport(m)) => r == Err::<AggregationResult, FetchError>(
                FetchError::Transport(m),
            ),
            Err(UpstreamFailure::Malformed(m)) => r == Err::<AggregationResult, FetchError>(
                FetchError::Malformed(m),
            ),
            Ok(rep) => match rep.games {
                Some(g) => r is Ok && r->Ok_0@ == aggregation_of(g@, catalog@),
                None => r == Err::<AggregationResult, FetchError>(FetchError::PrivateProfile),
            },
        },
{
    match owned_games_outcome(reply) {
        Ok(games) => Ok(aggregate(&games, catalog)),
        Err(e) => Err(e),
    }
}

pub open spec fn failure_text(e: UpstreamFailure) -> Seq<char> {
    match e {
        UpstreamFailure::Transport(m) => "Failed to contact Steam API: "@ + m@,
        UpstreamFailure::Malformed(m) => "Failed to parse Steam API response: "@ + m@,
    }
}

pub open spec fn fetch_error_text(e: FetchError) -> Seq<char> {
    match e {
        FetchError::Transport(m) => failure_text(UpstreamFailure::Transport(m)),
        FetchError::Malformed(m) => failure_text(UpstreamFailure::Malformed(m)),
        FetchError::PrivateProfile => "Could not retrieve games list - profile might be private"@,
    }
}

impl UpstreamFailure {
    /// The HTTP status with which the failure is reported.
    pub fn status_code(&self) -> (r: u16)
        ensures
            r == STATUS_UPSTREAM_FAILURE,
    {
        STATUS_UPSTREAM_FAILURE
    }

    /// The text with which the failure is reported.
    pub fn message(&self) -> (r: String)
        ensures
            r@ == failure_text(*self),
    {
        let mut text = String::new();
        match self {
            UpstreamFailure::Transport(m) => {
                text.append("Failed to contact Steam API: ");
                text.append(m.as_str());
            },
            UpstreamFailure::Malformed(m) => {
                text.append("Failed to parse Steam API response: ");
                text.append(m.as_str());
            },
        }
        text
    }
}

impl FetchError {
    /// The HTTP status with which the error is reported: a private profile
    /// is the caller's matter, the rest the upstream service's.
    pub fn status_code(&self) -> (r: u16)
        ensures
            r == match *self {
                FetchError::PrivateProfile => STATUS_PRIVATE_PROFILE,
                _ => STATUS_UPSTREAM_FAILURE,
            },
    {
        match self {
            FetchError::PrivateProfile => STATUS_PRIVATE_PROFILE,
            _ => STATUS_UPSTREAM_FAILURE,
        }
    }

    /// The text with which the error is reported.
    pub fn message(&self) -> (r: String)
        ensures
            r@ == fetch_error_text(*self),
    {
        match self {
            FetchError::Transport(m) => UpstreamFailure::Transport(m.clone()).message(),
            FetchError::Malformed(m) => UpstreamFailure::Malformed(m.clone()).message(),
            FetchError::PrivateProfile => {
                let mut text = String::new();
                text.append("Could not retrieve games list - profile might be private");
                text
            },
        }
    }
}

} // verus!
