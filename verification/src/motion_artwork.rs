//! Moving album covers, as plugins know them.

use vstd::prelude::*;


verus! {

/// How long a plugin may take, in seconds.
pub const PLUGIN_TIMEOUT_SECS: u64 = 20;

/// A moving cover of an album, and the plugin that knew it.
#[derive(PartialEq, Eq, Debug)]
pub struct MotionArtwork {
    pub square_url: String,
    pub tall_url: Option<String>,
    pub plugin_id: String,
}

/// What a plugin answered of an album: nothing where it failed or took too long.
#[derive(PartialEq, Eq, Debug)]
pub struct AlbumAnswer {
    pub plugin_id: String,
    pub info: Option<MotionInfo>,
}

/// What a plugin knows of an album's moving cover.
#[derive(PartialEq, Eq, Debug)]
pub struct MotionInfo {
    pub motion_cover_url: Option<String>,
    pub motion_cover_tall_url: Option<String>,
}

/// Whether an answer holds a moving cover.
pub open spec fn has_cover(a: AlbumAnswer) -> bool {
    a.info matches Some(i) && i.motion_cover_url is Some
}

/// The cover that an answer holds.
pub open spec fn cover_in(a: AlbumAnswer) -> Option<MotionArtwork> {
    match a.info {
        Some(i) => match i.motion_cover_url {
            Some(square_url) => Some(
                MotionArtwork {
                    square_url,
                    tall_url: i.motion_cover_tall_url,
                    plugin_id: a.plugin_id,
                },
            ),
            None => None,
        },
        None => None,
    }
}

/// Whether anybody is asked at all.
pub fn asks_for_motion_artwork(offline: bool) -> (r: bool)
    ensures
        r == !offline,
{
    !offline
}

/// What an answer comes to: the cover in it ends the search, and without one the
/// next answer is waited for.
pub fn motion_artwork_from(answer: AlbumAnswer) -> (r: Option<MotionArtwork>)
    ensures
        r == cover_in(answer),
{
    match answer.info {
        Some(i) => match i.motion_cover_url {
            Some(square_url) => Some(
                MotionArtwork {
                    square_url,
                    tall_url: i.motion_cover_tall_url,
                    plugin_id: answer.plugin_id,
                },
            ),
            None => None,
        },
        None => None,
    }
}

/// The cover that the answers come to, in the order in which they come: the first
/// there is.
pub open spec fn first_cover(answers: Seq<AlbumAnswer>) -> Option<MotionArtwork>
    decreases answers.len(),
{
    if answers.len() == 0 {
        None
    } else if has_cover(answers[0]) {
        cover_in(answers[0])
    } else {
        first_cover(answers.drop_first())
    }
}

/// The cover that the answers come to, in the order in which they come. Offline
/// there is none.
pub fn fetch_album_motion_artwork(offline: bool, answers: Vec<AlbumAnswer>) -> (r: Option<
    MotionArtwork,
>)
    ensures
        offline ==> r is None,
        !offline ==> r == first_cover(answers@),
{
    if !asks_for_motion_artwork(offline) {
        return None;
    }
    let mut rest = answers;
    while rest.len() > 0
        invariant
            !offline,
            first_cover(rest@) == first_cover(answers@),
        decreases rest@.len(),
    {
        let ghost before = rest@;
        let answer = rest.remove(0);
        assert(rest@ =~= before.drop_first());
        let found = motion_artwork_from(answer);
        if found.is_some() {
            return found;
        }
    }
    None
}

/// A cover is found exactly when some plugin that answered has one.
pub proof fn a_cover_is_found_where_there_is_one(answers: Seq<AlbumAnswer>)
    ensures
        first_cover(answers) is Some <==> exists|i: int|
            0 <= i < answers.len() && #[trigger] has_cover(answers[i]),
    decreases answers.len(),
{
    if answers.len() > 0 && !has_cover(answers[0]) {
        let rest = answers.drop_first();
        a_cover_is_found_where_there_is_one(rest);
        if exists|i: int| 0 <= i < answers.len() && #[trigger] has_cover(answers[i]) {
            let i = choose|i: int| 0 <= i < answers.len() && #[trigger] has_cover(answers[i]);
            assert(has_cover(rest[i - 1]));
        }
        if exists|i: int| 0 <= i < rest.len() && #[trigger] has_cover(rest[i]) {
            let i = choose|i: int| 0 <= i < rest.len() && #[trigger] has_cover(rest[i]);
            assert(has_cover(answers[i + 1]));
        }
    }
}

/// A cover is told with its own addresses, under the plugin that knew it.
pub proof fn a_cover_keeps_its_addresses(a: AlbumAnswer, square: String)
    ensures
        a.info is None ==> cover_in(a) is None,
        a.info matches Some(i) && i.motion_cover_url is None ==> cover_in(a) is None,
        a.info is Some && a.info->0.motion_cover_url == Some(square) ==> {
            &&& cover_in(a) matches Some(m)
            &&& m.square_url == square
            &&& m.tall_url == a.info->0.motion_cover_tall_url
            &&& m.plugin_id == a.plugin_id
        },
        has_cover(a) <==> a.info is Some && a.info->0.motion_cover_url is Some,
{
}

/// The first answer with a cover is the one that counts, whatever comes after it.
pub proof fn the_first_cover_counts(answers: Seq<AlbumAnswer>, k: int)
    requires
        0 <= k < answers.len(),
        has_cover(answers[k]),
        forall|j: int| 0 <= j < k ==> !has_cover(#[trigger] answers[j]),
    ensures
        first_cover(answers) == cover_in(answers[k]),
    decreases k,
{
    if k > 0 {
        assert(!has_cover(answers[0]));
        let rest = answers.drop_first();
        assert forall|j: int| 0 <= j < k - 1 implies !has_cover(#[trigger] rest[j]) by {
            assert(rest[j] == answers[j + 1]);
        }
        the_first_cover_counts(rest, k - 1);
    }
}

} // verus!
