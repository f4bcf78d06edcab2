//! The ListenBrainz records the application shows, the requests that fetch
//! them, and what is kept of each reply.
use vstd::prelude::*;

use crate::text::{concat, decimal, push_decimal};

verus! {

/// One listen of a user.
#[derive(Debug, Clone)]
pub struct Listen {
    /// Seconds since the Unix epoch; 0 when the server gave none.
    pub listened_at: i64,
    pub track_metadata: TrackMetadata,
}

/// What is known of the track of a listen.
#[derive(Debug, Clone)]
pub struct TrackMetadata {
    pub artist_name: String,
    pub track_name: String,
    pub release_name: Option<String>,
    pub additional_info: Option<AdditionalInfo>,
    pub mbid_mapping: Option<MbidMapping>,
}

/// Identifiers that the submitting client attached to a listen.
#[derive(Debug, Clone)]
pub struct AdditionalInfo {
    pub recording_mbid: Option<String>,
}

/// Identifiers that ListenBrainz matched to a listen.
#[derive(Debug, Clone)]
pub struct MbidMapping {
    pub recording_mbid: Option<String>,
}

/// One entry of a user's top artists.
#[derive(Debug, Clone)]
pub struct TopArtist {
    pub artist_name: String,
    pub listen_count: u64,
    pub artist_mbid: Option<String>,
}

/// One entry of a user's top recordings.
#[derive(Debug, Clone)]
pub struct TopRecording {
    pub track_name: String,
    pub artist_name: String,
    pub listen_count: u64,
    pub recording_mbid: Option<String>,
}

/// One entry of a user's top releases.
#[derive(Debug, Clone)]
pub struct TopRelease {
    pub release_name: String,
    pub artist_name: String,
    pub listen_count: u64,
    pub release_mbid: Option<String>,
}

/// The root of the ListenBrainz API.
pub open spec fn api_base() -> Seq<char> {
    "https://api.listenbrainz.org/1"@
}

/// Path of the `count` most recent listens of `user`.
pub open spec fn listens_path(user: Seq<char>, count: u32) -> Seq<char> {
    "/user/"@ + user + "/listens?count="@ + decimal(count as nat)
}

/// Path of what `user` is playing now.
pub open spec fn playing_now_path_of(user: Seq<char>) -> Seq<char> {
    "/user/"@ + user + "/playing-now"@
}

/// Path of the statistic `kind` (`artists`, `recordings`, `releases`) of
/// `user` over `range`, limited to `count` entries.
pub open spec fn stats_path(kind: Seq<char>, user: Seq<char>, range: Seq<char>, count: u32) -> Seq<
    char,
> {
    "/stats/user/"@ + user + "/"@ + kind + "?range="@ + range + "&count="@ + decimal(count as nat)
}

/// Path of the total number of listens of `user`.
pub open spec fn listen_count_path(user: Seq<char>) -> Seq<char> {
    "/user/"@ + user + "/listen-count"@
}

/// The request path for `user`'s `count` most recent listens.
pub fn recent_listens_path(user: &str, count: u32) -> (p: String)
    ensures
        p@ == listens_path(user@, count),
{
    let mut p = concat("/user/", user);
    p.append("/listens?count=");
    push_decimal(&mut p, count as u128);
    p
}

/// The request path for what `user` is playing now.
pub fn playing_now_path(user: &str) -> (p: String)
    ensures
        p@ == playing_now_path_of(user@),
{
    let mut p = concat("/user/", user);
    p.append("/playing-now");
    p
}

fn stats_request(kind: &str, user: &str, range: &str, count: u32) -> (p: String)
    ensures
        p@ == stats_path(kind@, user@, range@, count),
{
    let mut p = concat("/stats/user/", user);
    p.append("/");
    p.append(kind);
    p.append("?range=");
    p.append(range);
    p.append("&count=");
    push_decimal(&mut p, count as u128);
    p
}

/// The request path for `user`'s top artists over `range`.
pub fn top_artists_path(user: &str, range: &str, count: u32) -> (p: String)
    ensures
        p@ == stats_path("artists"@, user@, range@, count),
{
    stats_request("artists", user, range, count)
}

/// The request path for `user`'s top recordings over `range`.
pub fn top_recordings_path(user: &str, range: &str, count: u32) -> (p: String)
    ensures
        p@ == stats_path("recordings"@, user@, range@, count),
{
    stats_request("recordings", user, range, count)
}

/// The request path for `user`'s top releases over `range`.
pub fn top_releases_path(user: &str, range: &str, count: u32) -> (p: String)
    ensures
        p@ == stats_path("releases"@, user@, range@, count),
{
    stats_request("releases", user, range, count)
}

/// The request path for `user`'s total number of listens.
pub fn total_listens_path(user: &str) -> (p: String)
    ensures
        p@ == listen_count_path(user@),
{
    let mut p = concat("/user/", user);
    p.append("/listen-count");
    p
}

/// The full URL of an API path.
pub fn request_url(path: &str) -> (u: String)
    ensures
        u@ == api_base() + path@,
{
    concat("https://api.listenbrainz.org/1", path)
}

/// The value of the `Authorization` header for a user token.
pub fn auth_header(token: &str) -> (h: String)
    ensures
        h@ == "Token "@ + token@,
{
    concat("Token ", token)
}

/// What is playing now: the first listen of the playing-now reply, if any.
pub fn first_listen(listens: Vec<Listen>) -> (r: Option<Listen>)
    ensures
        listens@.len() == 0 ==> r is None,
        listens@.len() > 0 ==> r == Some(listens@[0]),
{
    let mut v = listens;
    if v.len() == 0 {
        None
    } else {
        Some(v.remove(0))
    }
}

/// A statistic as the application keeps it: a failed request counts as an
/// empty list (the statistics may not have been computed yet).
pub fn stats_or_empty<T, E>(reply: Result<Vec<T>, E>) -> (v: Vec<T>)
    ensures
        match reply {
            Ok(x) => v == x,
            Err(_) => v@.len() == 0,
        },
{
    match reply {
        Ok(x) => x,
        Err(_) => Vec::new(),
    }
}

} // verus!
