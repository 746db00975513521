//! The account on a server of one's own, as the interface is told of it, and what
//! follows from what is done with it.

use vstd::prelude::*;

use crate::decimal;
use crate::decimal::parse_i64;
use crate::error::AppError;
use crate::text;
use crate::text::{blank, same_text};

verus! {

/// How many tracks a search of the catalogue lists.
pub const SEARCH_LIMIT: u32 = 50;

// The state of the account.

/// The account, as the interface is told of it.
#[derive(PartialEq, Eq, Debug)]
pub struct RemoteStatus {
    pub server_url: Option<String>,
    pub flavour: Option<String>,
    pub username: Option<String>,
    pub signed_in: bool,
    pub bootstrapped: bool,
}

/// A server that a profile is bound to.
#[derive(PartialEq, Eq, Debug)]
pub struct RemoteBinding {
    pub server_url: String,
    pub flavour: String,
    /// Who signs in, where the server takes a name.
    pub subsonic_username: Option<String>,
    pub bootstrapped_at: Option<i64>,
}

/// What is kept of a sign-in.
#[derive(PartialEq, Eq, Debug)]
pub struct RemoteCredentials {
    pub username: Option<String>,
}

/// What a profile holds of its account.
#[derive(PartialEq, Eq, Debug)]
pub struct RemoteAccount {
    pub binding: Option<RemoteBinding>,
    pub credentials: Option<RemoteCredentials>,
}

/// The name by which the account is shown: the one that signed in, or else the one
/// that the server takes.
pub open spec fn shown_name(account: RemoteAccount) -> Option<String> {
    match account.credentials {
        Some(RemoteCredentials { username: Some(name) }) => Some(name),
        _ => match account.binding {
            Some(b) => b.subsonic_username,
            None => None,
        },
    }
}

/// The account, as the interface is told of it. Where no profile is open there is
/// none, which is no failure.
pub fn status(account: Result<RemoteAccount, AppError>) -> (r: Result<RemoteStatus, AppError>)
    ensures
        match account {
            Err(AppError::NoActiveProfile) => r == Ok::<RemoteStatus, AppError>(
                RemoteStatus {
                    server_url: None,
                    flavour: None,
                    username: None,
                    signed_in: false,
                    bootstrapped: false,
                },
            ),
            Err(e) => r == Err::<RemoteStatus, AppError>(e),
            Ok(a) => {
                &&& r matches Ok(s)
                &&& s.server_url == (match a.binding {
                    Some(b) => Some(b.server_url),
                    None => None,
                })
                &&& s.flavour == (match a.binding {
                    Some(b) => Some(b.flavour),
                    None => None,
                })
                &&& s.username == shown_name(a)
                &&& s.signed_in == a.credentials is Some
                &&& s.bootstrapped == (a.binding matches Some(b) && b.bootstrapped_at is Some)
            },
        },
{
    let a = match account {
        Err(AppError::NoActiveProfile) => {
            return Ok(
                RemoteStatus {
                    server_url: None,
                    flavour: None,
                    username: None,
                    signed_in: false,
                    bootstrapped: false,
                },
            );
        },
        Err(e) => return Err(e),
        Ok(a) => a,
    };
    let signed_in = a.credentials.is_some();
    let own_name = match a.credentials {
        Some(c) => c.username,
        None => None,
    };
    let (server_url, flavour, given_name, bootstrapped) = match a.binding {
        Some(b) => (
            Some(b.server_url),
            Some(b.flavour),
            b.subsonic_username,
            b.bootstrapped_at.is_some(),
        ),
        None => (None, None, None, false),
    };
    let username = match own_name {
        Some(name) => Some(name),
        None => given_name,
    };
    Ok(RemoteStatus { server_url, flavour, username, signed_in, bootstrapped })
}

/// What is read of a profile, if one is open. That none is open is no failure.
pub fn optional_pool<T>(pool: Result<T, AppError>) -> (r: Result<Option<T>, AppError>)
    ensures
        match pool {
            Ok(p) => r == Ok::<Option<T>, AppError>(Some(p)),
            Err(AppError::NoActiveProfile) => r == Ok::<Option<T>, AppError>(None),
            Err(e) => r == Err::<Option<T>, AppError>(e),
        },
{
    match pool {
        Ok(p) => Ok(Some(p)),
        Err(AppError::NoActiveProfile) => Ok(None),
        Err(e) => Err(e),
    }
}

// Which server it is.

/// What a server turns out to be.
#[derive(PartialEq, Eq, Debug)]
pub enum ServerFlavour {
    Waveflow { server_version: Option<String> },
    Subsonic { server_type: Option<String>, server_version: Option<String> },
}

/// A server, as the interface is told of it.
#[derive(PartialEq, Eq, Debug)]
pub struct RemoteProbeResult {
    pub flavour: String,
    pub server_type: Option<String>,
    pub server_version: Option<String>,
    pub supports_sync: bool,
}

/// A server, as the interface is told of it.
pub fn remote_detect_server(flavour: ServerFlavour) -> (r: RemoteProbeResult)
    ensures
        match flavour {
            ServerFlavour::Waveflow { server_version } => {
                &&& r.flavour@ == "waveflow"@
                &&& text::opt_text(r.server_type) == Some("waveflow"@)
                &&& r.server_version == server_version
                &&& r.supports_sync
            },
            ServerFlavour::Subsonic { server_type, server_version } => {
                &&& r.flavour@ == "subsonic"@
                &&& r.server_type == server_type
                &&& r.server_version == server_version
                &&& !r.supports_sync
            },
        },
{
    match flavour {
        ServerFlavour::Waveflow { server_version } => RemoteProbeResult {
            flavour: "waveflow".to_owned(),
            server_type: Some("waveflow".to_owned()),
            server_version,
            supports_sync: true,
        },
        ServerFlavour::Subsonic { server_type, server_version } => RemoteProbeResult {
            flavour: "subsonic".to_owned(),
            server_type,
            server_version,
            supports_sync: false,
        },
    }
}

// What follows.

/// A search of the catalogue.
#[derive(PartialEq, Eq, Debug)]
pub struct CatalogueQuery {
    pub text: String,
    pub limit: u32,
}

/// What is asked of the catalogue: nothing where nothing is searched for.
pub fn remote_search_catalogue(query: &str) -> (r: Option<CatalogueQuery>)
    ensures
        r is None <==> text::is_blank(query@),
        r matches Some(q) ==> q.text@ == text::trimmed(query@) && q.limit == SEARCH_LIMIT,
        r matches Some(q) ==> q.limit == 50,
{
    if blank(query) {
        return None;
    }
    Some(CatalogueQuery { text: query.trim().to_owned(), limit: SEARCH_LIMIT })
}

/// Whether something was copied to the server, so that it is sent there at once.
pub fn sends_at_once(direction: &str) -> (r: bool)
    ensures
        r == (direction@ == "local_to_server"@),
{
    same_text(direction, "local_to_server")
}

/// What follows once a playlist has been converted.
#[derive(Clone, Copy, PartialEq, Eq, Debug, Structural)]
pub enum Converted {
    /// What was written is sent to the server.
    Send,
    /// The playlist here gets a cover.
    DrawCover(i64),
    Nothing,
}

/// What follows once a playlist has been converted: one that went to the server is
/// sent there, and one that came from it gets a cover.
pub fn remote_convert_playlist(direction: &str, destination_id: &str) -> (r: Converted)
    ensures
        r == (if direction@ == "local_to_server"@ {
            Converted::Send
        } else {
            match decimal::int_within(destination_id@, i64::MIN as int, i64::MAX as int) {
                Some(id) => Converted::DrawCover(id as i64),
                None => Converted::Nothing,
            }
        }),
{
    if sends_at_once(direction) {
        return Converted::Send;
    }
    match parse_i64(destination_id) {
        Some(id) => Converted::DrawCover(id),
        None => Converted::Nothing,
    }
}

// What is kept of the server here.

/// What a pass that brings the catalogue up to date did.
#[derive(PartialEq, Eq, Debug)]
pub struct RemoteSyncReport {
    pub applied: usize,
    /// Events of a kind that is not known here, which are passed over: the server is
    /// newer.
    pub ignored: usize,
    pub pages: usize,
    pub cursor: i64,
    /// Whether all was fetched anew: on the first pass, or where an event could not be
    /// applied.
    pub resnapshotted: bool,
}

/// What the cache of streams holds.
#[derive(Clone, Copy, PartialEq, Eq, Debug, Structural)]
pub struct StreamCacheInfo {
    pub bytes: u64,
    /// How many tracks are there in full.
    pub tracks: usize,
}

/// A track of the queue that is playing.
#[derive(PartialEq, Eq, Debug)]
pub struct RemoteQueueRow {
    pub id: String,
    pub title: Option<String>,
    pub artist: Option<String>,
    /// The first artist, by the server's id.
    pub artist_id: Option<String>,
    pub artwork_hash: Option<String>,
    pub duration_ms: Option<i64>,
}

/// The queue that is playing, and where it stands.
#[derive(PartialEq, Eq, Debug)]
pub struct RemotePlayQueue {
    pub entries: Vec<RemoteQueueRow>,
    pub index: usize,
}

/// The queue that is playing; none where what plays is a file of the library or a radio
/// station.
pub fn remote_get_play_queue(session: Option<(Vec<RemoteQueueRow>, usize)>) -> (r: Option<
    RemotePlayQueue,
>)
    ensures
        r == (match session {
            Some((entries, index)) => Some(RemotePlayQueue { entries, index }),
            None => None,
        }),
{
    match session {
        Some((entries, index)) => Some(RemotePlayQueue { entries, index }),
        None => None,
    }
}

/// Whether an import is followed up: only where something came of it.
pub fn import_follows_up(imported: usize) -> (r: bool)
    ensures
        r == (imported > 0),
{
    imported > 0
}

/// The account is shown by the name that signed in; without one by the name that the
/// server takes; and by none where there is neither.
pub proof fn the_name_that_signed_in_is_shown(account: RemoteAccount, c: RemoteCredentials, b: RemoteBinding)
    ensures
        account.credentials == Some(c) && c.username is Some ==> shown_name(account) == c.username,
        (account.credentials is None || account.credentials->0.username is None)
            && account.binding == Some(b) ==> shown_name(account) == b.subsonic_username,
        (account.credentials is None || account.credentials->0.username is None)
            && account.binding is None ==> shown_name(account) is None,
{
}

} // verus!
