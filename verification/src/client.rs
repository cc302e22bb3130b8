use vstd::prelude::*;
use vstd::string::StringExecFns;

use crate::error::FetchError;

verus! {

/// A canonical identity-and-stats snapshot of one player, as the remote API
/// reports it.  Play time is held in whole seconds.
#[derive(Debug, PartialEq, Eq)]
pub struct TetrUser {
    pub _id: String,
    pub username: String,
    pub ts: Option<String>,
    pub gamesplayed: i32,
    pub gameswon: i32,
    pub gametime: u64,
    pub country: Option<String>,
    pub connections: TetrUserConnections,
}

impl TetrUser {
    /// An equal copy of the snapshot.
    pub fn duplicate(&self) -> (r: TetrUser)
        ensures
            r == *self,
    {
        TetrUser {
            _id: self._id.clone(),
            username: self.username.clone(),
            ts: match &self.ts {
                Some(s) => Some(s.clone()),
                None => None,
            },
            gamesplayed: self.gamesplayed,
            gameswon: self.gameswon,
            gametime: self.gametime,
            country: match &self.country {
                Some(s) => Some(s.clone()),
                None => None,
            },
            connections: self.connections.duplicate(),
        }
    }
}

#[derive(Debug, PartialEq, Eq)]
pub struct TetrUserConnections {
    pub discord: Option<TetrUserDiscordConnection>,
}

impl TetrUserConnections {
    pub fn duplicate(&self) -> (r: TetrUserConnections)
        ensures
            r == *self,
    {
        TetrUserConnections {
            discord: match &self.discord {
                Some(c) => Some(
                    TetrUserDiscordConnection { id: c.id.clone(), username: c.username.clone() },
                ),
                None => None,
            },
        }
    }
}

#[derive(Debug, PartialEq, Eq)]
pub struct TetrUserDiscordConnection {
    pub id: String,
    pub username: String,
}

/// Per-mode personal-best records of one player.
#[derive(Debug, PartialEq, Eq)]
pub struct TetrUserRecord {
    pub records: TetrUserRankRecord,
    pub zen: TetrUserZenRecord,
}

#[derive(Debug, PartialEq, Eq)]
pub struct TetrUserRankRecord {
    pub _40l: TetrUser40lRecord,
    pub blitz: TetrUserBlitzRecord,
}

#[derive(Debug, PartialEq, Eq)]
pub struct TetrUser40lRecord {
    pub record: Option<TetrRecord>,
    pub rank: Option<i32>,
}

#[derive(Debug, PartialEq, Eq)]
pub struct TetrUserBlitzRecord {
    pub record: Option<TetrRecord>,
    pub rank: Option<i32>,
}

#[derive(Debug, PartialEq, Eq)]
pub struct TetrUserZenRecord {
    pub level: i32,
    pub score: i32,
}

/// One recorded run.  `score` is the headline value of the run: a time in
/// milliseconds for the 40-lines mode, a point count for blitz.
#[derive(Debug, PartialEq, Eq)]
pub struct TetrRecord {
    pub ts: String,
    pub score: i32,
}

/// The envelope every response of the remote API carries: a success flag, an
/// optional error message, and the payload.
#[derive(Debug, PartialEq, Eq)]
pub struct TetrResponse<T> {
    pub success: bool,
    pub error: Option<String>,
    pub data: Option<T>,
}

/// The base URL of the remote read-only API.
pub open spec fn api_base_url() -> Seq<char> {
    "https://ch.tetr.io/api/"@
}

/// Where a user's avatar lives, as a pure function of the resolved id.
pub open spec fn avatar_url_of(user_id: Seq<char>) -> Seq<char> {
    "https://tetr.io/user-content/avatars/"@ + user_id + ".jpg"@
}

pub fn get_user_avatar_url(user_id: &str) -> (url: String)
    ensures
        url@ == avatar_url_of(user_id@),
{
    let mut url = String::from_str("https://tetr.io/user-content/avatars/");
    url.append(user_id);
    url.append(".jpg");
    url
}

/// The endpoint that resolves a handle or id to an identity snapshot.
pub fn user_endpoint_url(user: &str) -> (url: String)
    ensures
        url@ == api_base_url() + "users/"@ + user@,
{
    let mut url = String::from_str("https://ch.tetr.io/api/");
    url.append("users/");
    url.append(user);
    url
}

/// The endpoint that resolves an already-known id to its per-mode records.
pub fn user_records_endpoint_url(user_id: &str) -> (url: String)
    ensures
        url@ == api_base_url() + "users/"@ + user_id@ + "/records"@,
{
    let mut url = String::from_str("https://ch.tetr.io/api/");
    url.append("users/");
    url.append(user_id);
    url.append("/records");
    url
}

/// Applies the envelope contract: a false success flag is an application-level
/// failure whatever the transport said, carrying the envelope's message (or
/// "unknown" where it had none); a true flag with an absent payload means the
/// identity was not found; otherwise the payload is the result.
pub fn interpret_response<T>(response: TetrResponse<T>) -> (r: Result<T, FetchError>)
    ensures
        !response.success ==> (r matches Err(e) && (e matches FetchError::RemoteApiError(m)
            && (match response.error {
                Some(err) => m@ == err@,
                None => m@ == "unknown"@,
            }))),
        response.success && response.data is Some ==> r == Ok::<T, FetchError>(
            response.data->Some_0,
        ),
        response.success && response.data is None ==> r == Err::<T, FetchError>(
            FetchError::IdentityNotFound,
        ),
{
    if !response.success {
        let msg = match response.error {
            Some(err) => err,
            None => String::from_str("unknown"),
        };
        Err(FetchError::RemoteApiError(msg))
    } else {
        match response.data {
            Some(data) => Ok(data),
            None => Err(FetchError::IdentityNotFound),
        }
    }
}

} // verus!
