//! Queues for a mood: what each mood asks of a track, and what is played when
//! whole records are preferred.

use vstd::prelude::*;

use crate::error;
use crate::error::AppError;
use crate::lyrics_tags;

verus! {

/// How many tracks a queue has.
pub const TARGET_LEN: usize = 40;

/// How many of them one artist may have.
pub const PER_ARTIST_CAP: usize = 4;

/// How many tracks the best are chosen from.
pub const POOL_SIZE: i64 = 400;

/// How many records the best are chosen from.
pub const ALBUM_POOL_SIZE: i64 = 60;

/// How many of them one artist may have.
pub const ALBUM_PER_ARTIST_CAP: usize = 2;

/// A mood.
#[derive(Clone, Copy, PartialEq, Eq, Debug, Structural)]
pub enum Mood {
    Focus,
    Chill,
    Workout,
    Party,
    Sleep,
}

/// What a mood asks of a track: a window of tempos, in beats a minute, with the
/// tempo that fits best, a loudness, in LUFS, and words of genres.
#[derive(PartialEq, Eq, Debug)]
pub struct MoodProfile {
    pub bpm_min: Option<i64>,
    pub bpm_max: Option<i64>,
    pub bpm_centre: i64,
    pub lufs_max: Option<i64>,
    pub lufs_min: Option<i64>,
    pub genre_words: Vec<&'static str>,
}

/// A number, where there is one.
pub open spec fn opt_int(o: Option<i64>) -> Option<int> {
    match o {
        Some(n) => Some(n as int),
        None => None,
    }
}

/// What a mood asks of a track.
pub struct ProfileNote {
    pub bpm_min: Option<int>,
    pub bpm_max: Option<int>,
    pub bpm_centre: int,
    pub lufs_max: Option<int>,
    pub lufs_min: Option<int>,
    pub genre_words: Seq<Seq<char>>,
}

impl MoodProfile {
    pub open spec fn view(&self) -> ProfileNote {
        ProfileNote {
            bpm_min: opt_int(self.bpm_min),
            bpm_max: opt_int(self.bpm_max),
            bpm_centre: self.bpm_centre as int,
            lufs_max: opt_int(self.lufs_max),
            lufs_min: opt_int(self.lufs_min),
            genre_words: lyrics_tags::str_texts(self.genre_words@),
        }
    }
}

/// What a mood asks of a track.
pub open spec fn profile_of(mood: Mood) -> ProfileNote {
    match mood {
        Mood::Focus => ProfileNote {
            bpm_min: Some(72),
            bpm_max: Some(108),
            bpm_centre: 88,
            lufs_max: Some(-14),
            lufs_min: None,
            genre_words: seq![
                "ambient"@, "classical"@, "instrumental"@, "piano"@, "soundtrack"@, "score"@,
                "post-rock"@,
            ],
        },
        Mood::Chill => ProfileNote {
            bpm_min: Some(65),
            bpm_max: Some(95),
            bpm_centre: 78,
            lufs_max: Some(-10),
            lufs_min: None,
            genre_words: seq![
                "chill"@, "lounge"@, "downtempo"@, "soul"@, "jazz"@, "bossa"@, "r&b"@,
                "trip hop"@, "folk"@,
            ],
        },
        Mood::Workout => ProfileNote {
            bpm_min: Some(128),
            bpm_max: Some(180),
            bpm_centre: 150,
            lufs_max: None,
            lufs_min: Some(-12),
            genre_words: seq![
                "electronic"@, "dance"@, "techno"@, "rock"@, "metal"@, "punk"@, "hip hop"@,
                "rap"@, "drum"@,
            ],
        },
        Mood::Party => ProfileNote {
            bpm_min: Some(110),
            bpm_max: Some(132),
            bpm_centre: 122,
            lufs_max: None,
            lufs_min: Some(-12),
            genre_words: seq![
                "dance"@, "pop"@, "house"@, "disco"@, "funk"@, "reggaeton"@, "electronic"@,
                "latin"@,
            ],
        },
        Mood::Sleep => ProfileNote {
            bpm_min: None,
            bpm_max: Some(68),
            bpm_centre: 52,
            lufs_max: Some(-18),
            lufs_min: None,
            genre_words: seq![
                "ambient"@, "classical"@, "piano"@, "meditation"@, "drone"@, "new age"@,
                "sleep"@,
            ],
        },
    }
}

impl Mood {
    /// What the mood asks of a track.
    pub fn profile(&self) -> (r: MoodProfile)
        ensures
            r@ == profile_of(*self),
    {
        let r = match self {
            Mood::Focus => MoodProfile {
                bpm_min: Some(72),
                bpm_max: Some(108),
                bpm_centre: 88,
                lufs_max: Some(-14),
                lufs_min: None,
                genre_words: vec![
                    "ambient", "classical", "instrumental", "piano", "soundtrack", "score",
                    "post-rock",
                ],
            },
            Mood::Chill => MoodProfile {
                bpm_min: Some(65),
                bpm_max: Some(95),
                bpm_centre: 78,
                lufs_max: Some(-10),
                lufs_min: None,
                genre_words: vec![
                    "chill", "lounge", "downtempo", "soul", "jazz", "bossa", "r&b", "trip hop",
                    "folk",
                ],
            },
            Mood::Workout => MoodProfile {
                bpm_min: Some(128),
                bpm_max: Some(180),
                bpm_centre: 150,
                lufs_max: None,
                lufs_min: Some(-12),
                genre_words: vec![
                    "electronic", "dance", "techno", "rock", "metal", "punk", "hip hop", "rap",
                    "drum",
                ],
            },
            Mood::Party => MoodProfile {
                bpm_min: Some(110),
                bpm_max: Some(132),
                bpm_centre: 122,
                lufs_max: None,
                lufs_min: Some(-12),
                genre_words: vec![
                    "dance", "pop", "house", "disco", "funk", "reggaeton", "electronic", "latin",
                ],
            },
            Mood::Sleep => MoodProfile {
                bpm_min: None,
                bpm_max: Some(68),
                bpm_centre: 52,
                lufs_max: Some(-18),
                lufs_min: None,
                genre_words: vec![
                    "ambient", "classical", "piano", "meditation", "drone", "new age", "sleep",
                ],
            },
        };
        assert(r@.genre_words =~= profile_of(*self).genre_words);
        r
    }
}

/// Whether a tempo lies in a mood's window.
pub open spec fn in_window(profile: ProfileNote, bpm: int) -> bool {
    &&& profile.bpm_min matches Some(low) ==> low <= bpm
    &&& profile.bpm_max matches Some(high) ==> bpm <= high
}

/// The tempo that fits a mood best is one that the mood admits, and no mood asks
/// a track to be both quiet and loud.
pub proof fn a_mood_admits_its_own_tempo(mood: Mood)
    ensures
        in_window(profile_of(mood), profile_of(mood).bpm_centre),
        profile_of(mood).lufs_max is None || profile_of(mood).lufs_min is None,
{
}

/// What a request for a mood's queue comes to.
#[derive(Clone, Copy, PartialEq, Eq, Debug, Structural)]
pub enum MoodPlan {
    /// The records that were chosen are played.
    Records,
    /// The best of the tracks are played.
    Tracks,
}

/// What a request for a mood's queue comes to: where whole records are preferred
/// and some were found, those; otherwise the tracks, and an error where there
/// are none.
pub fn start_mood_radio(album_mode: bool, record_tracks: usize, candidates: usize) -> (r: Result<
    MoodPlan,
    AppError,
>)
    ensures
        r == Ok::<MoodPlan, AppError>(MoodPlan::Records) <==> album_mode && record_tracks > 0,
        r == Ok::<MoodPlan, AppError>(MoodPlan::Tracks) <==> !(album_mode && record_tracks > 0)
            && candidates > 0,
        r matches Err(e) ==> error::says(
            e,
            "no tracks match this mood — run BPM analysis on your library first"@,
        ),
{
    if album_mode && record_tracks > 0 {
        return Ok(MoodPlan::Records);
    }
    if candidates == 0 {
        return Err(
            AppError::Other(
                "no tracks match this mood — run BPM analysis on your library first".to_owned(),
            ),
        );
    }
    Ok(MoodPlan::Tracks)
}

/// A record with the number of its tracks.
#[derive(Clone, Copy, PartialEq, Eq, Debug, Structural)]
pub struct AlbumCandidate {
    pub album_id: i64,
    pub track_count: i64,
}

/// The last record with an id.
pub open spec fn record_of(rows: Seq<AlbumCandidate>, id: i64) -> Option<AlbumCandidate>
    decreases rows.len(),
{
    if rows.len() == 0 {
        None
    } else if rows.last().album_id == id {
        Some(rows.last())
    } else {
        record_of(rows.drop_last(), id)
    }
}

/// The records in the order of a ranking.
pub open spec fn in_rank(rows: Seq<AlbumCandidate>, ranked: Seq<i64>) -> Seq<AlbumCandidate>
    decreases ranked.len(),
{
    if ranked.len() == 0 {
        seq![]
    } else {
        let earlier = in_rank(rows, ranked.drop_last());
        match record_of(rows, ranked.last()) {
            Some(r) => earlier.push(r),
            None => earlier,
        }
    }
}

fn find_record(rows: &Vec<AlbumCandidate>, id: i64) -> (r: Option<AlbumCandidate>)
    ensures
        r == record_of(rows@, id),
{
    let mut i: usize = rows.len();
    assert(rows@.take(i as int) =~= rows@);
    while i > 0
        invariant
            i <= rows@.len(),
            record_of(rows@.take(i as int), id) == record_of(rows@, id),
        decreases i,
    {
        assert(rows@.take(i as int).drop_last() =~= rows@.take(i - 1));
        if rows[i - 1].album_id == id {
            return Some(rows[i - 1]);
        }
        i = i - 1;
    }
    None
}

/// The records in the order of a ranking.
pub fn mood_radio_by_album(rows: &Vec<AlbumCandidate>, ranked: &Vec<i64>) -> (v: Vec<AlbumCandidate>)
    ensures
        v@ == in_rank(rows@, ranked@),
{
    let mut v: Vec<AlbumCandidate> = Vec::new();
    let total: usize = ranked.len();
    let mut i: usize = 0;
    assert(in_rank(rows@, ranked@.take(0)) =~= seq![]);
    while i < total
        invariant
            total == ranked@.len(),
            i <= total,
            v@ == in_rank(rows@, ranked@.take(i as int)),
        decreases total - i,
    {
        assert(ranked@.take(i + 1).drop_last() =~= ranked@.take(i as int));
        if let Some(r) = find_record(rows, ranked[i]) {
            v.push(r);
        }
        i = i + 1;
    }
    assert(ranked@.take(total as int) =~= ranked@);
    v
}

/// How many tracks each mood admits, of how many.
#[derive(Clone, Copy, PartialEq, Eq, Debug, Structural)]
pub struct MoodCounts {
    pub focus: i64,
    pub chill: i64,
    pub workout: i64,
    pub party: i64,
    pub sleep: i64,
    pub analysed_tracks: i64,
    pub total_tracks: i64,
}

/// How many tracks have been analysed, of how many: none where there is nothing
/// to add up.
pub fn analysis_coverage(analysed: Option<i64>, total: i64) -> (r: (i64, i64))
    ensures
        r.0 == (match analysed {
            Some(n) => n,
            None => 0,
        }),
        r.1 == total,
{
    match analysed {
        Some(n) => (n, total),
        None => (0, total),
    }
}

/// What the moods ask of a track's tempo and of its loudness.
pub proof fn these_are_the_moods()
    ensures
        profile_of(Mood::Focus).bpm_min == Some(72int) && profile_of(Mood::Focus).bpm_max == Some(
            108int,
        ) && profile_of(Mood::Focus).bpm_centre == 88 && profile_of(Mood::Focus).lufs_max == Some(
            -14int,
        ) && profile_of(Mood::Focus).lufs_min is None,
        profile_of(Mood::Chill).bpm_min == Some(65int) && profile_of(Mood::Chill).bpm_max == Some(
            95int,
        ) && profile_of(Mood::Chill).bpm_centre == 78 && profile_of(Mood::Chill).lufs_max == Some(
            -10int,
        ) && profile_of(Mood::Chill).lufs_min is None,
        profile_of(Mood::Workout).bpm_min == Some(128int) && profile_of(Mood::Workout).bpm_max
            == Some(180int) && profile_of(Mood::Workout).bpm_centre == 150 && profile_of(
            Mood::Workout,
        ).lufs_min == Some(-12int) && profile_of(Mood::Workout).lufs_max is None,
        profile_of(Mood::Party).bpm_min == Some(110int) && profile_of(Mood::Party).bpm_max == Some(
            132int,
        ) && profile_of(Mood::Party).bpm_centre == 122 && profile_of(Mood::Party).lufs_min == Some(
            -12int,
        ) && profile_of(Mood::Party).lufs_max is None,
        profile_of(Mood::Sleep).bpm_min is None && profile_of(Mood::Sleep).bpm_max == Some(68int)
            && profile_of(Mood::Sleep).bpm_centre == 52 && profile_of(Mood::Sleep).lufs_max == Some(
            -18int,
        ) && profile_of(Mood::Sleep).lufs_min is None,
        profile_of(Mood::Focus).genre_words == seq![
            "ambient"@, "classical"@, "instrumental"@, "piano"@, "soundtrack"@, "score"@,
            "post-rock"@,
        ],
        profile_of(Mood::Chill).genre_words == seq![
            "chill"@, "lounge"@, "downtempo"@, "soul"@, "jazz"@, "bossa"@, "r&b"@,
            "trip hop"@, "folk"@,
        ],
        profile_of(Mood::Workout).genre_words == seq![
            "electronic"@, "dance"@, "techno"@, "rock"@, "metal"@, "punk"@, "hip hop"@,
            "rap"@, "drum"@,
        ],
        profile_of(Mood::Party).genre_words == seq![
            "dance"@, "pop"@, "house"@, "disco"@, "funk"@, "reggaeton"@, "electronic"@,
            "latin"@,
        ],
        profile_of(Mood::Sleep).genre_words == seq![
            "ambient"@, "classical"@, "piano"@, "meditation"@, "drone"@, "new age"@,
            "sleep"@,
        ],
{
}

/// A tempo is a mood's where it is not below the least and not above the most that the mood
/// asks for.
pub proof fn a_window_has_two_ends(profile: ProfileNote, bpm: int)
    ensures
        in_window(profile, bpm) <==> (profile.bpm_min is None || profile.bpm_min->0 <= bpm) && (
        profile.bpm_max is None || bpm <= profile.bpm_max->0),
{
}

/// A record is found by its id, where there is one with it.
pub proof fn a_record_is_found_by_its_id(rows: Seq<AlbumCandidate>, id: i64)
    ensures
        record_of(rows, id) matches Some(r) ==> r.album_id == id && rows.contains(r),
        record_of(rows, id) is None ==> forall|k: int|
            0 <= k < rows.len() ==> (#[trigger] rows[k]).album_id != id,
    decreases rows.len(),
{
    if rows.len() > 0 {
        let rest = rows.drop_last();
        a_record_is_found_by_its_id(rest, id);
        if rows.last().album_id == id {
            assert(rows[rows.len() - 1] == rows.last());
        } else if record_of(rest, id) is Some {
            let k = choose|k: int| 0 <= k < rest.len() && rest[k] == record_of(rest, id)->0;
            assert(rows[k] == rest[k]);
        } else {
            assert forall|k: int| 0 <= k < rows.len() implies (#[trigger] rows[k]).album_id != id by {
                if k < rest.len() {
                    assert(rest[k] == rows[k]);
                }
            }
        }
    }
}

/// The records are played in the order of the ranking: one more rank adds its record behind
/// the others, where there is one.
pub proof fn records_follow_the_ranking(rows: Seq<AlbumCandidate>, ranked: Seq<i64>, id: i64)
    ensures
        record_of(rows, id) matches Some(r) ==> in_rank(rows, ranked.push(id)) == in_rank(
            rows,
            ranked,
        ).push(r),
        record_of(rows, id) is None ==> in_rank(rows, ranked.push(id)) == in_rank(rows, ranked),
        in_rank(rows, Seq::<i64>::empty()).len() == 0,
{
    assert(ranked.push(id).drop_last() =~= ranked);
}

/// What a mood asks is what its profile holds, each thing in its place.
pub proof fn a_mood_asks_what_its_profile_holds(p: MoodProfile)
    ensures
        p.bpm_min is Some ==> p@.bpm_min == Some(p.bpm_min->0 as int),
        p.bpm_min is None ==> p@.bpm_min is None,
        p.bpm_max is Some ==> p@.bpm_max == Some(p.bpm_max->0 as int),
        p.bpm_max is None ==> p@.bpm_max is None,
        p@.bpm_centre == p.bpm_centre,
        p.lufs_max is Some ==> p@.lufs_max == Some(p.lufs_max->0 as int),
        p.lufs_max is None ==> p@.lufs_max is None,
        p.lufs_min is Some ==> p@.lufs_min == Some(p.lufs_min->0 as int),
        p.lufs_min is None ==> p@.lufs_min is None,
        p@.genre_words.len() == p.genre_words@.len(),
        forall|i: int|
            0 <= i < p.genre_words@.len() ==> #[trigger] p@.genre_words[i] == p.genre_words@[i]@,
{
}

} // verus!
