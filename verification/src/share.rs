//! Public links to playlists, and what is remembered of them.

use vstd::prelude::*;
use vstd::string::StringExecFns;

use crate::error;
use crate::error::AppError;
use crate::settings;
use crate::settings::{SettingWrite, ValueKind};
use crate::text;
use crate::text::{around, strip_end};

verus! {

/// What begins the name under which a playlist's token is remembered.
pub const CACHE_KEY_PREFIX: &'static str = "share.token.";

/// A public link.
#[derive(PartialEq, Eq, Debug)]
pub struct ShareLink {
    pub token: String,
    pub url: String,
}

/// The link of a playlist, if it has one.
#[derive(PartialEq, Eq, Debug)]
pub struct ShareStatus {
    pub link: Option<ShareLink>,
}

/// What a link of a token leads to.
pub open spec fn share_address(origin: Seq<char>, token: Seq<char>) -> Seq<char> {
    text::stripped_end(origin, '/') + "/p/"@ + token
}

/// Whether this is the link of a token.
pub open spec fn is_link(link: ShareLink, origin: Seq<char>, token: Seq<char>) -> bool {
    &&& link.token@ == token
    &&& link.url@ == share_address(origin, token)
}

/// What is said when there is nothing to put before a token.
pub open spec fn no_origin() -> Seq<char> {
    "web origin not configured (set app.waveflow_web_url in app_setting)"@
}

/// What is said of a playlist that cannot be shared.
pub open spec fn not_owned() -> Seq<char> {
    "playlist not found or not owned by the active profile"@
}

/// What a link of a token leads to.
pub fn build_share_url(origin: &Option<String>, token: &str) -> (r: Result<String, AppError>)
    ensures
        match origin {
            Some(o) => r matches Ok(u) && u@ == share_address(o@, token@),
            None => r matches Err(e) && error::says(e, no_origin()),
        },
{
    match origin {
        Some(o) => Ok(around(strip_end(o.as_str(), '/').as_str(), "/p/", token)),
        None => Err(
            AppError::Other(
                "web origin not configured (set app.waveflow_web_url in app_setting)".to_owned(),
            ),
        ),
    }
}

/// The two names by which the server knows a playlist: the playlist's, then the
/// profile's. Each is missing where it was never given.
pub fn resolve_canonicals(playlist: Option<String>, profile: Option<String>) -> (r: Result<
    (String, String),
    AppError,
>)
    ensures
        match (playlist, profile) {
            (None, _) => r matches Err(e) && error::says(e, not_owned()),
            (Some(_), None) => r matches Err(e) && error::says(
                e,
                "profile.canonical_id not backfilled yet — restart the app to seed it"@,
            ),
            (Some(l), Some(p)) => r == Ok::<(String, String), AppError>((l, p)),
        },
{
    match playlist {
        None => Err(
            AppError::Other("playlist not found or not owned by the active profile".to_owned()),
        ),
        Some(l) => match profile {
            None => Err(
                AppError::Other(
                    "profile.canonical_id not backfilled yet — restart the app to seed it".to_owned(),
                ),
            ),
            Some(p) => Ok((l, p)),
        },
    }
}

/// What is asked of the server to share a playlist, or to stop sharing it.
pub fn share_path(profile_canonical: &str, playlist_canonical: &str) -> (r: String)
    ensures
        r@ == "/api/v1/share/playlists/by-canonical/"@ + profile_canonical@ + "/"@
            + playlist_canonical@,
{
    let mut r = "/api/v1/share/playlists/by-canonical/".to_owned();
    r.append(profile_canonical);
    r.append("/");
    r.append(playlist_canonical);
    r
}

/// The name under which a playlist's token is remembered.
pub open spec fn token_key(playlist_canonical: Seq<char>) -> Seq<char> {
    "share.token."@ + playlist_canonical
}

/// The name under which a playlist's token is remembered.
pub fn cache_key(playlist_canonical: &str) -> (r: String)
    ensures
        r@ == token_key(playlist_canonical@),
{
    CACHE_KEY_PREFIX.to_owned().concat(playlist_canonical)
}

/// What is stored of a playlist's token.
pub open spec fn token_change(playlist_canonical: Seq<char>, token: Option<Seq<char>>) -> settings::SettingNote {
    match token {
        Some(t) => settings::SettingNote::Put {
            key: token_key(playlist_canonical),
            value: t,
            kind: ValueKind::Text,
        },
        None => settings::SettingNote::Remove { key: token_key(playlist_canonical) },
    }
}

fn cached_token(playlist_canonical: &str, token: Option<&str>) -> (w: SettingWrite)
    ensures
        w@ == token_change(
            playlist_canonical@,
            match token {
                Some(t) => Some(t@),
                None => None,
            },
        ),
{
    let key = cache_key(playlist_canonical);
    match token {
        Some(t) => SettingWrite::Put { key, value: t.to_owned(), kind: ValueKind::Text },
        None => SettingWrite::Remove { key },
    }
}

/// What a server's refusal is called.
pub open spec fn refusal(what: Seq<char>, status: Seq<char>, body: Seq<char>) -> Seq<char> {
    what + status + " ("@ + body + ")"@
}

fn refused(what: &str, status: &str, body: &str) -> (e: AppError)
    ensures
        error::says(e, refusal(what@, status@, body@)),
{
    let mut m = what.to_owned();
    m.append(status);
    m.append(" (");
    m.append(body);
    m.append(")");
    AppError::Other(m)
}

/// What the server answers: the status, and the status as it is read out.
#[derive(PartialEq, Eq, Debug)]
pub struct ShareReply {
    pub status: u16,
    pub status_text: String,
    pub body: String,
}

/// What sharing a playlist comes to: its link, with what is remembered of it.
/// `token` is what the body of a good reply holds.
pub fn share_link_mint(
    playlist_canonical: &str,
    reply: &ShareReply,
    token: Result<String, AppError>,
    origin: &Option<String>,
) -> (r: Result<(ShareLink, SettingWrite), AppError>)
    ensures
        reply.status == 404 ==> (r matches Err(e) && error::says(e, not_owned())),
        reply.status != 404 && reply.status != 200 ==> (r matches Err(e) && error::says(
            e,
            refusal("share mint returned "@, reply.status_text@, reply.body@),
        )),
        reply.status == 200 ==> match (token, *origin) {
            (Err(e), _) => r == Err::<(ShareLink, SettingWrite), AppError>(e),
            (Ok(_), None) => r matches Err(e) && error::says(e, no_origin()),
            (Ok(t), Some(o)) => {
                &&& r matches Ok((link, w))
                &&& is_link(link, o@, t@)
                &&& w@ == token_change(playlist_canonical@, Some(t@))
            },
        },
{
    if reply.status == 404 {
        return Err(
            AppError::Other("playlist not found or not owned by the active profile".to_owned()),
        );
    }
    if reply.status != 200 {
        return Err(
            refused("share mint returned ", reply.status_text.as_str(), reply.body.as_str()),
        );
    }
    match token {
        Err(e) => Err(e),
        Ok(t) => match build_share_url(origin, t.as_str()) {
            Err(e) => Err(e),
            Ok(url) => {
                let w = cached_token(playlist_canonical, Some(t.as_str()));
                Ok((ShareLink { token: t, url }, w))
            },
        },
    }
}

/// What no longer sharing a playlist comes to: what is remembered of it goes.
pub fn share_link_revoke(playlist_canonical: &str, reply: &ShareReply) -> (r: Result<
    SettingWrite,
    AppError,
>)
    ensures
        reply.status == 204 ==> (r matches Ok(w) && w@ == token_change(
            playlist_canonical@,
            None,
        )),
        reply.status == 404 ==> (r matches Err(e) && error::says(e, not_owned())),
        reply.status != 204 && reply.status != 404 ==> (r matches Err(e) && error::says(
            e,
            refusal("share revoke returned "@, reply.status_text@, reply.body@),
        )),
{
    if reply.status == 204 {
        Ok(cached_token(playlist_canonical, None))
    } else if reply.status == 404 {
        Err(AppError::Other("playlist not found or not owned by the active profile".to_owned()))
    } else {
        Err(refused("share revoke returned ", reply.status_text.as_str(), reply.body.as_str()))
    }
}

/// The link of a playlist, by the token that is remembered.
pub fn share_link_status(token: Option<String>, origin: &Option<String>) -> (r: Result<
    ShareStatus,
    AppError,
>)
    ensures
        match (token, *origin) {
            (None, _) => r matches Ok(s) && s.link is None,
            (Some(_), None) => r matches Err(e) && error::says(e, no_origin()),
            (Some(t), Some(o)) => r matches Ok(s) && (s.link matches Some(link) && is_link(
                link,
                o@,
                t@,
            )),
        },
{
    match token {
        None => Ok(ShareStatus { link: None }),
        Some(t) => match build_share_url(origin, t.as_str()) {
            Err(e) => Err(e),
            Ok(url) => Ok(ShareStatus { link: Some(ShareLink { token: t, url }) }),
        },
    }
}

/// A link that was made is the one that is shown until it is taken back, and then
/// none is; and what is done to one playlist leaves the links of others alone.
pub proof fn a_made_link_is_shown_until_taken_back(
    settings: Map<Seq<char>, Seq<char>>,
    playlist: Seq<char>,
    other: Seq<char>,
    token: Option<Seq<char>>,
)
    ensures
        ({
            let after = settings::settings_after(settings, token_change(playlist, token));
            &&& settings::setting(after, token_key(playlist)) == token
            &&& other != playlist ==> settings::setting(after, token_key(other))
                == settings::setting(settings, token_key(other))
        }),
{
    if other != playlist {
        let n = "share.token."@.len() as int;
        assert(token_key(playlist).skip(n) =~= playlist);
        assert(token_key(other).skip(n) =~= other);
    }
}

/// A link leads to the token below the site, whatever slashes end the site's address.
pub proof fn slashes_behind_the_site_do_not_matter(origin: Seq<char>, slashes: Seq<char>, token: Seq<char>)
    requires
        origin.len() > 0,
        origin.last() != '/',
        forall|i: int| 0 <= i < slashes.len() ==> #[trigger] slashes[i] == '/',
    ensures
        share_address(origin + slashes, token) == origin + "/p/"@ + token,
{
    let s = origin + slashes;
    text::only_the_end_is_stripped(s, '/');
    let left = text::stripped_end(s, '/');
    if left.len() < origin.len() {
        assert(s[origin.len() - 1] == '/');
        assert(false);
    }
    if left.len() > origin.len() {
        assert(left.last() == s[left.len() - 1]);
        assert(s[left.len() - 1] == slashes[left.len() - 1 - origin.len()]);
        assert(false);
    }
    assert(left =~= origin);
}

/// A link holds the token and the address that the token makes.
pub proof fn a_link_is_its_tokens(link: ShareLink, origin: Seq<char>, token: Seq<char>)
    requires
        is_link(link, origin, token),
    ensures
        link.token@ == token,
        link.url@ == share_address(origin, link.token@),
{
}

/// A token is remembered as a text under its own playlist's name, and a token that is
/// taken back goes from there.
pub proof fn a_token_is_remembered_under_its_playlist(playlist: Seq<char>, token: Seq<char>)
    ensures
        token_key(playlist) == "share.token."@ + playlist,
        token_change(playlist, Some(token)) == (settings::SettingNote::Put {
            key: "share.token."@ + playlist,
            value: token,
            kind: ValueKind::Text,
        }),
        token_change(playlist, None) == (settings::SettingNote::Remove {
            key: "share.token."@ + playlist,
        }),
        CACHE_KEY_PREFIX@ == "share.token."@,
{
}

/// What is said of a link that cannot be made says why.
pub proof fn a_refused_link_says_why(what: Seq<char>, status: Seq<char>, body: Seq<char>)
    ensures
        no_origin() == "web origin not configured (set app.waveflow_web_url in app_setting)"@,
        not_owned() == "playlist not found or not owned by the active profile"@,
        refusal(what, status, body) == what + status + " ("@ + body + ")"@,
{
}

} // verus!
