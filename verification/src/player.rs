//! What the player tells the interface, and what it tells the audio engine.

use vstd::prelude::*;

use crate::decimal;
use crate::decimal::parse_i64;
use crate::error;
use crate::error::AppError;
use crate::text;
use crate::text::{around, blank, same_text};

verus! {

/// How far into a track, in milliseconds, going back means its beginning.
pub const RESTART_AFTER_MS: u64 = 3000;

/// How long a track is left to settle before it is announced, in seconds.
pub const NOW_PLAYING_DELAY_S: u64 = 4;

/// The answer of Last.fm to a session that is no longer valid.
pub const INVALID_SESSION: u32 = 9;

/// A track of the queue.
#[derive(PartialEq, Eq, Debug)]
pub struct QueueTrack {
    pub id: i64,
    pub title: String,
    pub artist_id: Option<i64>,
    pub artist_name: Option<String>,
    pub artist_ids: Option<String>,
    pub album_title: Option<String>,
    pub duration_ms: i64,
    pub file_path: String,
    pub artwork_hash: Option<String>,
    pub artwork_format: Option<String>,
    pub bitrate: Option<i64>,
    pub sample_rate: Option<i64>,
    pub channels: Option<i64>,
    pub bit_depth: Option<i64>,
    pub codec: Option<String>,
    pub file_size: i64,
}

/// A track of the queue, as the interface is told it.
#[derive(PartialEq, Eq, Debug)]
pub struct QueueTrackPayload {
    pub id: i64,
    pub title: String,
    pub artist_id: Option<i64>,
    pub artist_name: Option<String>,
    pub artist_ids: Option<String>,
    pub album_title: Option<String>,
    pub duration_ms: i64,
    pub file_path: String,
    pub artwork_path: Option<String>,
    pub artwork_path_1x: Option<String>,
    pub artwork_path_2x: Option<String>,
    pub bitrate: Option<i64>,
    pub sample_rate: Option<i64>,
    pub channels: Option<i64>,
    pub bit_depth: Option<i64>,
    pub codec: Option<String>,
    pub file_size: i64,
}

/// A cover: whose profile keeps it, and its file's name there.
#[derive(PartialEq, Eq, Debug)]
pub struct CoverFile {
    pub profile_id: i64,
    pub hash: String,
    pub name: String,
}

/// Where a cover and its thumbnails are.
#[derive(PartialEq, Eq, Debug)]
pub struct CoverPaths {
    pub full: String,
    pub small: Option<String>,
    pub large: Option<String>,
}

/// The cover of a track: none unless its hash, its format and the profile are
/// all known.
pub fn cover_file(track: &QueueTrack, profile_id: Option<i64>) -> (r: Option<CoverFile>)
    ensures
        r is Some <==> track.artwork_hash is Some && track.artwork_format is Some && profile_id
            is Some,
        r matches Some(c) ==> {
            &&& c.profile_id == profile_id->0
            &&& c.hash@ == (track.artwork_hash->0)@
            &&& c.name@ == (track.artwork_hash->0)@ + "."@ + (track.artwork_format->0)@
        },
{
    match (&track.artwork_hash, &track.artwork_format, profile_id) {
        (Some(hash), Some(format), Some(profile_id)) => Some(
            CoverFile {
                profile_id,
                hash: hash.clone(),
                name: around(hash.as_str(), ".", format.as_str()),
            },
        ),
        _ => None,
    }
}

/// A track as the interface is told it, with its cover where there is one.
pub open spec fn told(track: QueueTrack, cover: Option<CoverPaths>) -> QueueTrackPayload {
    QueueTrackPayload {
        id: track.id,
        title: track.title,
        artist_id: track.artist_id,
        artist_name: track.artist_name,
        artist_ids: track.artist_ids,
        album_title: track.album_title,
        duration_ms: track.duration_ms,
        file_path: track.file_path,
        artwork_path: match cover {
            Some(c) => Some(c.full),
            None => None,
        },
        artwork_path_1x: match cover {
            Some(c) => c.small,
            None => None,
        },
        artwork_path_2x: match cover {
            Some(c) => c.large,
            None => None,
        },
        bitrate: track.bitrate,
        sample_rate: track.sample_rate,
        channels: track.channels,
        bit_depth: track.bit_depth,
        codec: track.codec,
        file_size: track.file_size,
    }
}

/// A track as the interface is told it, with its cover where there is one.
pub fn queue_track_to_payload_with_paths(track: QueueTrack, cover: Option<CoverPaths>) -> (r:
    QueueTrackPayload)
    ensures
        r == told(track, cover),
        r.id == track.id,
        r.title == track.title,
        r.artist_id == track.artist_id,
        r.artist_name == track.artist_name,
        r.artist_ids == track.artist_ids,
        r.album_title == track.album_title,
        r.duration_ms == track.duration_ms,
        r.file_path == track.file_path,
        r.bitrate == track.bitrate,
        r.sample_rate == track.sample_rate,
        r.channels == track.channels,
        r.bit_depth == track.bit_depth,
        r.codec == track.codec,
        r.file_size == track.file_size,
        r.artwork_path is Some <==> cover is Some,
        cover matches Some(c) ==> r.artwork_path == Some(c.full) && r.artwork_path_1x == c.small
            && r.artwork_path_2x == c.large,
        cover is None ==> r.artwork_path_1x is None && r.artwork_path_2x is None,
{
    let (artwork_path, artwork_path_1x, artwork_path_2x) = match cover {
        Some(c) => (Some(c.full), c.small, c.large),
        None => (None, None, None),
    };
    QueueTrackPayload {
        id: track.id,
        title: track.title,
        artist_id: track.artist_id,
        artist_name: track.artist_name,
        artist_ids: track.artist_ids,
        album_title: track.album_title,
        duration_ms: track.duration_ms,
        file_path: track.file_path,
        artwork_path,
        artwork_path_1x,
        artwork_path_2x,
        bitrate: track.bitrate,
        sample_rate: track.sample_rate,
        channels: track.channels,
        bit_depth: track.bit_depth,
        codec: track.codec,
        file_size: track.file_size,
    }
}

/// What the tray icon says of a track.
pub open spec fn tooltip_text(title: Seq<char>, artist: Option<Seq<char>>) -> Seq<char> {
    match artist {
        Some(a) if a.len() > 0 => title + " — "@ + a,
        _ => title,
    }
}

/// What the tray icon says of a track.
pub fn tray_tooltip(title: &str, artist: &Option<String>) -> (r: String)
    ensures
        r@ == tooltip_text(title@, text::opt_text(*artist)),
{
    match artist {
        Some(a) => {
            proof {
                reveal_strlit("");
            }
            if same_text(a.as_str(), "") {
                title.to_owned()
            } else {
                assert(a@.len() > 0) by {
                    if a@.len() == 0 {
                        assert(a@ =~= ""@);
                    }
                }
                around(title, " — ", a.as_str())
            }
        },
        None => title.to_owned(),
    }
}

/// What Last.fm is told of the track that is playing.
#[derive(PartialEq, Eq, Debug)]
pub struct NowPlaying {
    pub artist: String,
    pub title: String,
    pub album: Option<String>,
    pub duration_s: Option<i64>,
}

/// What Last.fm is told of a track once it has settled: nothing when another
/// track is playing by then, when the artist is not known or when the network
/// is off.
pub fn schedule_now_playing(
    track_id: i64,
    title: String,
    artist: Option<String>,
    album: Option<String>,
    duration_ms: i64,
    current_track_id: i64,
    offline: bool,
) -> (r: Option<NowPlaying>)
    ensures
        r is Some <==> current_track_id == track_id && !offline && (artist matches Some(a)
            && !text::is_blank(a@)),
        r matches Some(n) ==> n == (NowPlaying {
            artist: artist->0,
            title,
            album,
            duration_s: if duration_ms > 0 {
                Some((duration_ms / 1000) as i64)
            } else {
                None
            },
        }),
{
    if current_track_id != track_id || offline {
        return None;
    }
    match artist {
        Some(artist) => {
            if blank(artist.as_str()) {
                None
            } else {
                let duration_s = if duration_ms > 0 {
                    Some(duration_ms / 1000)
                } else {
                    None
                };
                Some(NowPlaying { artist, title, album, duration_s })
            }
        },
        None => None,
    }
}

/// Whether Last.fm's answer means that the session is to be given up.
pub fn ends_session(code: u32) -> (r: bool)
    ensures
        r == (code == INVALID_SESSION),
        r == (code == 9),
{
    code == INVALID_SESSION
}

/// How a queue goes on at its end.
#[derive(Clone, Copy, PartialEq, Eq, Debug, Structural)]
pub enum RepeatMode {
    Off,
    All,
    One,
}

/// The mode that follows when the user asks for the next.
pub open spec fn cycled(mode: RepeatMode) -> RepeatMode {
    match mode {
        RepeatMode::Off => RepeatMode::All,
        RepeatMode::All => RepeatMode::One,
        RepeatMode::One => RepeatMode::Off,
    }
}

/// The mode that follows when the user asks for the next.
pub fn player_cycle_repeat(mode: RepeatMode) -> (r: RepeatMode)
    ensures
        r == cycled(mode),
{
    match mode {
        RepeatMode::Off => RepeatMode::All,
        RepeatMode::All => RepeatMode::One,
        RepeatMode::One => RepeatMode::Off,
    }
}

/// Asking for the next mode three times leads back, through every mode.
pub proof fn the_modes_go_round(mode: RepeatMode)
    ensures
        cycled(cycled(cycled(mode))) == mode,
        cycled(mode) != mode,
        cycled(cycled(mode)) != mode,
{
}

/// What follows when the user turns shuffling on or off.
#[derive(Clone, Copy, PartialEq, Eq, Debug, Structural)]
pub enum QueueOrder {
    /// The queue is shuffled in place.
    Shuffle,
    /// The queue is put back in order.
    Restore,
}

/// The new state of shuffling, with what happens to the queue.
pub fn player_toggle_shuffle(current: bool) -> (r: (bool, QueueOrder))
    ensures
        r.0 == !current,
        r.1 == (if r.0 {
            QueueOrder::Shuffle
        } else {
            QueueOrder::Restore
        }),
{
    if current {
        (false, QueueOrder::Restore)
    } else {
        (true, QueueOrder::Shuffle)
    }
}

// The state that the interface is told at its start.

/// What the engine is at.
#[derive(PartialEq, Eq, Debug)]
pub struct LivePlayback {
    pub state: String,
    pub position_ms: u64,
    /// The bits of the volume.
    pub volume_bits: u32,
    pub sample_rate: u32,
    pub channels: u16,
    /// The track that is loaded; zero or less where none of the library is.
    pub track_id: i64,
}

/// What a profile's database knows of the player.
#[derive(PartialEq, Eq, Debug)]
pub struct StoredPlayback {
    pub shuffle: bool,
    pub repeat_mode: RepeatMode,
    /// The last track with the position in it.
    pub resume: Option<(QueueTrack, u64)>,
}

/// The track and the position that the player shows.
pub open spec fn shown(live: LivePlayback, stored: Option<StoredPlayback>) -> (
    Option<QueueTrack>,
    u64,
) {
    match stored {
        None => (None, 0),
        Some(s) => if live.track_id > 0 {
            (
                match s.resume {
                    Some((t, _)) if t.id == live.track_id => Some(t),
                    _ => None,
                },
                live.position_ms,
            )
        } else {
            match s.resume {
                Some((t, ms)) => (Some(t), ms),
                None => (None, 0),
            }
        },
    }
}

/// What the player is at, before the track's cover is looked up.
#[derive(PartialEq, Eq, Debug)]
pub struct PlayerStateSnapshot {
    pub state: String,
    pub position_ms: u64,
    pub volume_bits: u32,
    pub sample_rate: u32,
    pub channels: u16,
    pub shuffle: bool,
    pub repeat_mode: RepeatMode,
    pub current_track: Option<QueueTrack>,
}

/// The position that the player shows: while it is idle and at no position of
/// its own, where the listener left off.
pub open spec fn shown_position(live: LivePlayback, stored: Option<StoredPlayback>) -> u64 {
    if live.state@ == "idle"@ && live.position_ms == 0 {
        shown(live, stored).1
    } else {
        live.position_ms
    }
}

/// What the player is at. Without a profile there is nothing to resume.
pub fn player_get_state(live: LivePlayback, stored: Option<StoredPlayback>) -> (r: PlayerStateSnapshot)
    ensures
        r == (PlayerStateSnapshot {
            state: live.state,
            position_ms: shown_position(live, stored),
            volume_bits: live.volume_bits,
            sample_rate: live.sample_rate,
            channels: live.channels,
            shuffle: stored matches Some(s) && s.shuffle,
            repeat_mode: match stored {
                Some(s) => s.repeat_mode,
                None => RepeatMode::Off,
            },
            current_track: shown(live, stored).0,
        }),
{
    let mut shuffle = false;
    let mut repeat_mode = RepeatMode::Off;
    let mut current_track: Option<QueueTrack> = None;
    let mut resumed: u64 = 0;
    if let Some(s) = stored {
        shuffle = s.shuffle;
        repeat_mode = s.repeat_mode;
        if live.track_id > 0 {
            resumed = live.position_ms;
            if let Some((t, _)) = s.resume {
                if t.id == live.track_id {
                    current_track = Some(t);
                }
            }
        } else if let Some((t, ms)) = s.resume {
            current_track = Some(t);
            resumed = ms;
        }
    }
    let position_ms: u64 = if same_text(live.state.as_str(), "idle") && live.position_ms == 0 {
        resumed
    } else {
        live.position_ms
    };
    PlayerStateSnapshot {
        state: live.state,
        position_ms,
        volume_bits: live.volume_bits,
        sample_rate: live.sample_rate,
        channels: live.channels,
        shuffle,
        repeat_mode,
        current_track,
    }
}

/// A player that was left idle shows the track and the position that it was
/// left at; one that plays a track shows that track or none, at the position it
/// plays.
pub proof fn the_player_shows_where_it_is(live: LivePlayback, stored: StoredPlayback)
    ensures
        live.state@ == "idle"@ && live.position_ms == 0 && live.track_id <= 0 ==> (match stored.resume {
            Some((t, ms)) => shown(live, Some(stored)).0 == Some(t) && shown_position(
                live,
                Some(stored),
            ) == ms,
            None => shown(live, Some(stored)).0 is None && shown_position(live, Some(stored)) == 0,
        }),
        live.track_id > 0 ==> shown_position(live, Some(stored)) == live.position_ms && (shown(
            live,
            Some(stored),
        ).0 matches Some(t) ==> t.id == live.track_id),
{
}

// The queue.

/// The queue, as the interface is told it.
#[derive(PartialEq, Eq, Debug)]
pub struct PlayerQueueSnapshot {
    pub current_index: i64,
    pub items: Vec<QueueTrackPayload>,
    pub source_type: Option<String>,
}

/// The place in the queue that a stored text stands for: the first where it
/// stands for none.
pub open spec fn queue_index(value: Option<Seq<char>>) -> int {
    match value {
        Some(v) => match decimal::int_within(v, i64::MIN as int, i64::MAX as int) {
            Some(n) => n,
            None => 0,
        },
        None => 0,
    }
}

/// The queue, as the interface is told it.
pub fn player_get_queue(
    items: Vec<QueueTrackPayload>,
    stored_index: &Option<String>,
    source_type: Option<String>,
) -> (r: PlayerQueueSnapshot)
    ensures
        r.items == items,
        r.source_type == source_type,
        r.current_index == queue_index(text::opt_text(*stored_index)),
{
    let mut current_index: i64 = 0;
    if let Some(v) = stored_index {
        if let Some(n) = parse_i64(v.as_str()) {
            current_index = n;
        }
    }
    PlayerQueueSnapshot { current_index, items, source_type }
}

// What the engine is told.

/// A track that the engine is to load and play.
#[derive(PartialEq, Eq, Debug)]
pub struct LoadAndPlay {
    pub path: String,
    pub start_ms: u64,
    pub track_id: i64,
    pub duration_ms: u64,
    pub source_type: String,
    pub source_id: Option<i64>,
}

/// The command that plays a track.
pub open spec fn plays(
    command: LoadAndPlay,
    track: QueueTrack,
    start_ms: u64,
    source_type: Seq<char>,
    source_id: Option<i64>,
) -> bool {
    &&& command.path@ == track.file_path@
    &&& command.start_ms == start_ms
    &&& command.track_id == track.id
    &&& command.duration_ms == (if track.duration_ms < 0 {
        0
    } else {
        track.duration_ms as int
    })
    &&& command.source_type@ == source_type
    &&& command.source_id == source_id
}

fn load_and_play(track: &QueueTrack, start_ms: u64, source_type: &str, source_id: Option<i64>) -> (r:
    LoadAndPlay)
    ensures
        plays(r, *track, start_ms, source_type@, source_id),
{
    LoadAndPlay {
        path: track.file_path.clone(),
        start_ms,
        track_id: track.id,
        duration_ms: if track.duration_ms < 0 {
            0
        } else {
            track.duration_ms as u64
        },
        source_type: source_type.to_owned(),
        source_id,
    }
}

/// What jumping to a place in the queue comes to.
pub fn player_jump_to_index(track: &Option<QueueTrack>) -> (r: Result<LoadAndPlay, AppError>)
    ensures
        match *track {
            Some(t) => r matches Ok(c) && plays(c, t, 0, "manual"@, None),
            None => r matches Err(e) && error::says(e, "queue is empty"@),
        },
{
    match track {
        Some(t) => Ok(load_and_play(t, 0, "manual", None)),
        None => Err(AppError::Other("queue is empty".to_owned())),
    }
}

/// What resuming where the listener left off comes to.
pub fn player_resume_last(resume: &Option<(QueueTrack, u64)>) -> (r: Result<LoadAndPlay, AppError>)
    ensures
        match *resume {
            Some((t, ms)) => r matches Ok(c) && plays(c, t, ms, "manual"@, None),
            None => r matches Err(e) && error::says(e, "no resume point available"@),
        },
{
    match resume {
        Some((t, ms)) => Ok(load_and_play(t, *ms, "manual", None)),
        None => Err(AppError::Other("no resume point available".to_owned())),
    }
}

/// What playing a list comes to, once the queue has been filled with it.
/// `is_file` says whether the current track's file is there.
pub fn player_play_tracks(
    current: &Option<QueueTrack>,
    is_file: bool,
    source_type: &str,
    source_id: Option<i64>,
) -> (r: Result<LoadAndPlay, AppError>)
    ensures
        match *current {
            Some(t) => if is_file {
                r matches Ok(c) && plays(c, t, 0, source_type@, source_id)
            } else {
                r matches Err(AppError::Audio(m)) && m@ == "file not found: "@ + t.file_path@
            },
            None => r matches Err(e) && error::says(e, "queue empty after fill"@),
        },
{
    match current {
        Some(t) => {
            if is_file {
                Ok(load_and_play(t, 0, source_type, source_id))
            } else {
                let m = around("file not found: ", t.file_path.as_str(), "");
                proof {
                    reveal_strlit("");
                    assert(m@ =~= "file not found: "@ + t.file_path@);
                }
                Err(AppError::Audio(m))
            }
        },
        None => Err(AppError::Other("queue empty after fill".to_owned())),
    }
}

/// What going on to the next track comes to: nothing at the end of the queue.
pub fn player_next(next: &Option<QueueTrack>) -> (r: Option<LoadAndPlay>)
    ensures
        match *next {
            Some(t) => r matches Some(c) && plays(c, t, 0, "manual"@, None),
            None => r is None,
        },
{
    match next {
        Some(t) => Some(load_and_play(t, 0, "manual", None)),
        None => None,
    }
}

/// Whether going back means the beginning of the track that is playing.
pub fn restarts_track(position_ms: u64) -> (r: bool)
    ensures
        r == (position_ms > RESTART_AFTER_MS),
        r == (position_ms > 3000),
{
    position_ms > RESTART_AFTER_MS
}

// The loop between two points.

/// The points of a loop, in milliseconds; zero stands for none.
#[derive(Clone, Copy, PartialEq, Eq, Debug, Structural)]
pub struct LoopPoints {
    pub a_ms: u64,
    pub b_ms: u64,
}

/// The points of a loop, as the interface is told them.
#[derive(Clone, Copy, PartialEq, Eq, Debug, Structural)]
pub struct AbLoopSnapshot {
    pub a_ms: Option<u64>,
    pub b_ms: Option<u64>,
}

/// A point that is set.
pub open spec fn point(ms: u64) -> Option<u64> {
    if ms > 0 {
        Some(ms)
    } else {
        None
    }
}

/// The points of a loop, as the interface is told them.
pub open spec fn loop_told(points: LoopPoints) -> AbLoopSnapshot {
    AbLoopSnapshot { a_ms: point(points.a_ms), b_ms: point(points.b_ms) }
}

/// The points of a loop, as the interface is told them.
pub fn current_ab_loop(points: &LoopPoints) -> (r: AbLoopSnapshot)
    ensures
        r == loop_told(*points),
{
    AbLoopSnapshot {
        a_ms: if points.a_ms > 0 {
            Some(points.a_ms)
        } else {
            None
        },
        b_ms: if points.b_ms > 0 {
            Some(points.b_ms)
        } else {
            None
        },
    }
}

/// The points after they were set: one that is not given is cleared.
pub open spec fn loop_set(a_ms: Option<u64>, b_ms: Option<u64>) -> LoopPoints {
    LoopPoints {
        a_ms: match a_ms {
            Some(a) => a,
            None => 0,
        },
        b_ms: match b_ms {
            Some(b) => b,
            None => 0,
        },
    }
}

/// Set the points of the loop. One that is not given is cleared.
pub fn player_set_ab_loop(points: &mut LoopPoints, a_ms: Option<u64>, b_ms: Option<u64>) -> (r:
    AbLoopSnapshot)
    ensures
        *final(points) == loop_set(a_ms, b_ms),
        r == loop_told(*final(points)),
{
    points.a_ms = match a_ms {
        Some(a) => a,
        None => 0,
    };
    points.b_ms = match b_ms {
        Some(b) => b,
        None => 0,
    };
    current_ab_loop(points)
}

/// Clear the loop.
pub fn player_clear_ab_loop(points: &mut LoopPoints) -> (r: AbLoopSnapshot)
    ensures
        *final(points) == (LoopPoints { a_ms: 0, b_ms: 0 }),
        r == (AbLoopSnapshot { a_ms: None, b_ms: None }),
{
    *points = LoopPoints { a_ms: 0, b_ms: 0 };
    AbLoopSnapshot { a_ms: None, b_ms: None }
}

/// The points that are set read back, each side by itself: one that is not given is
/// cleared whatever the other one is, and the beginning of the track is no point.
pub proof fn a_set_point_reads_back(a_ms: Option<u64>, b_ms: Option<u64>)
    ensures
        a_ms != Some(0u64) ==> loop_told(loop_set(a_ms, b_ms)).a_ms == a_ms,
        b_ms != Some(0u64) ==> loop_told(loop_set(a_ms, b_ms)).b_ms == b_ms,
        loop_told(loop_set(Some(0), b_ms)).a_ms is None,
        loop_told(loop_set(a_ms, Some(0))).b_ms is None,
{
}

// The output devices.

/// An output device, as the system lists it.
#[derive(PartialEq, Eq, Debug)]
pub struct OutputDevice {
    pub id: String,
    pub name: String,
    pub is_default: bool,
}

/// An output device, as the interface is told it.
#[derive(PartialEq, Eq, Debug)]
pub struct OutputDeviceRow {
    pub id: String,
    pub name: String,
    pub is_default: bool,
    pub is_active: bool,
}

/// Whether a device is the one that plays: the chosen one, and the system's own
/// where none is chosen.
pub open spec fn device_is_active(device: OutputDevice, chosen: Option<Seq<char>>) -> bool {
    match chosen {
        Some(id) => device.id@ == id,
        None => device.is_default,
    }
}

/// The output devices, as the interface is told them, in the system's order.
pub fn player_list_output_devices(devices: Vec<OutputDevice>, chosen: &Option<String>) -> (v: Vec<
    OutputDeviceRow,
>)
    ensures
        v@.len() == devices@.len(),
        forall|i: int|
            #![trigger v@[i]]
            0 <= i < v@.len() ==> v@[i] == (OutputDeviceRow {
                id: devices@[i].id,
                name: devices@[i].name,
                is_default: devices@[i].is_default,
                is_active: device_is_active(devices@[i], text::opt_text(*chosen)),
            }),
{
    let mut v: Vec<OutputDeviceRow> = Vec::new();
    let total: usize = devices.len();
    let mut i: usize = 0;
    while i < total
        invariant
            total == devices@.len(),
            i <= total,
            v@.len() == i,
            forall|j: int|
                #![trigger v@[j]]
                0 <= j < i ==> v@[j] == (OutputDeviceRow {
                    id: devices@[j].id,
                    name: devices@[j].name,
                    is_default: devices@[j].is_default,
                    is_active: device_is_active(devices@[j], text::opt_text(*chosen)),
                }),
        decreases total - i,
    {
        let d = &devices[i];
        let is_active = match chosen {
            Some(id) => same_text(d.id.as_str(), id.as_str()),
            None => d.is_default,
        };
        v.push(
            OutputDeviceRow {
                id: d.id.clone(),
                name: d.name.clone(),
                is_default: d.is_default,
                is_active,
            },
        );
        i = i + 1;
    }
    v
}

// What the interface and the engine are told, field by field.

/// What the interface is told of a queue track keeps each of the track's own fields under
/// its name, and its cover where there is one.
pub proof fn a_track_is_told_by_its_own_fields(track: QueueTrack, cover: Option<CoverPaths>)
    ensures
        told(track, cover).id == track.id,
        told(track, cover).title == track.title,
        told(track, cover).artist_id == track.artist_id,
        told(track, cover).artist_name == track.artist_name,
        told(track, cover).artist_ids == track.artist_ids,
        told(track, cover).album_title == track.album_title,
        told(track, cover).duration_ms == track.duration_ms,
        told(track, cover).file_path == track.file_path,
        told(track, cover).bitrate == track.bitrate,
        told(track, cover).sample_rate == track.sample_rate,
        told(track, cover).channels == track.channels,
        told(track, cover).bit_depth == track.bit_depth,
        told(track, cover).codec == track.codec,
        told(track, cover).file_size == track.file_size,
        cover matches Some(c) ==> told(track, cover).artwork_path == Some(c.full) && told(
            track,
            cover,
        ).artwork_path_1x == c.small && told(track, cover).artwork_path_2x == c.large,
        cover is None ==> told(track, cover).artwork_path is None && told(
            track,
            cover,
        ).artwork_path_1x is None && told(track, cover).artwork_path_2x is None,
{
}

/// The tray icon shows the title, and the artist behind it where one is known.
pub proof fn the_tray_shows_title_and_artist(title: Seq<char>, artist: Seq<char>)
    ensures
        tooltip_text(title, None) == title,
        artist.len() > 0 ==> tooltip_text(title, Some(artist)) == title + " — "@ + artist,
        tooltip_text(title, Some(Seq::empty())) == title,
{
}

/// A command that plays a track names the track's own file, from the place that was asked
/// for, with the track's id and its length, none below zero.
pub proof fn a_command_plays_the_track(
    command: LoadAndPlay,
    track: QueueTrack,
    start_ms: u64,
    source_type: Seq<char>,
    source_id: Option<i64>,
)
    requires
        plays(command, track, start_ms, source_type, source_id),
    ensures
        command.path@ == track.file_path@,
        command.start_ms == start_ms,
        command.track_id == track.id,
        track.duration_ms >= 0 ==> command.duration_ms == track.duration_ms,
        track.duration_ms < 0 ==> command.duration_ms == 0,
        command.source_type@ == source_type,
        command.source_id == source_id,
{
}

/// Asking for the next mode of repeating leads from none to all, from all to one, and from
/// one to none.
pub proof fn the_modes_follow_each_other()
    ensures
        cycled(RepeatMode::Off) == RepeatMode::All,
        cycled(RepeatMode::All) == RepeatMode::One,
        cycled(RepeatMode::One) == RepeatMode::Off,
{
}

/// While a track of the library is loaded the player shows that track, where it is the one
/// that is stored, at the place that it plays; without a profile it shows none.
pub proof fn the_loaded_track_is_shown(
    live: LivePlayback,
    stored: StoredPlayback,
    track: QueueTrack,
    ms: u64,
)
    requires
        stored.resume == Some((track, ms)),
    ensures
        live.track_id > 0 && track.id == live.track_id ==> shown(live, Some(stored)).0 == Some(track),
        live.track_id > 0 && track.id != live.track_id ==> shown(live, Some(stored)).0 is None,
        live.track_id <= 0 ==> shown(live, Some(stored)) == (Some(track), ms),
        shown(live, None) == (None::<QueueTrack>, 0u64),
        live.position_ms > 0 ==> shown_position(live, Some(stored)) == live.position_ms,
        live.state@ != "idle"@ ==> shown_position(live, Some(stored)) == live.position_ms,
{
}

/// The place in the queue is the number that is stored, and the first where none is.
pub proof fn a_stored_place_is_read_back(n: i64, s: Seq<char>)
    ensures
        queue_index(None) == 0,
        decimal::int_within(s, i64::MIN as int, i64::MAX as int) == Some(n as int) ==> queue_index(
            Some(s),
        ) == n,
        decimal::int_within(s, i64::MIN as int, i64::MAX as int) is None ==> queue_index(Some(s))
            == 0,
{
}

/// The device that plays is the chosen one, and the system's own only where none is chosen.
pub proof fn the_chosen_device_plays(device: OutputDevice, id: Seq<char>)
    ensures
        device_is_active(device, Some(id)) <==> device.id@ == id,
        device_is_active(device, None) <==> device.is_default,
{
}

} // verus!
