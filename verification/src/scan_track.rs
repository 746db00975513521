//! One audio file of a scan: what is made of its tags, and which rows are
//! written for it.

use vstd::prelude::*;
use vstd::string::StringExecFns;

use crate::decimal;
use crate::decimal::u64_text;
use crate::scan::{CoverArt, ExtractedFile};
use crate::text;
use crate::text::{clone_opt, same_text};

verus! {

/// What the container says of the sound, as the tag reader hands it out.
#[derive(PartialEq, Eq, Debug)]
pub struct AudioProperties {
    pub duration_ms: i64,
    pub bitrate: Option<i64>,
    pub sample_rate: Option<i64>,
    pub channels: Option<i64>,
    pub bit_depth: Option<i64>,
    pub codec: Option<String>,
}

/// What a tag says of the track.
#[derive(PartialEq, Eq, Debug)]
pub struct TagFields {
    pub title: Option<String>,
    pub artist: Option<String>,
    pub album: Option<String>,
    pub album_artist: Option<String>,
    pub is_compilation: bool,
    pub genre: Option<String>,
    pub year: Option<i64>,
    pub track_number: Option<i64>,
    pub disc_number: Option<i64>,
    pub cover_art: Option<CoverArt>,
    pub rating: Option<u8>,
    pub musical_key: Option<String>,
}

/// The file itself.
#[derive(PartialEq, Eq, Debug)]
pub struct FileFacts {
    pub abs_path: String,
    pub size: i64,
    pub modified_ms: i64,
    pub hash: String,
    /// The file name without its extension, where it is text.
    pub stem: Option<String>,
}

/// A tag without anything in it.
pub open spec fn no_tag() -> TagFields {
    TagFields {
        title: None,
        artist: None,
        album: None,
        album_artist: None,
        is_compilation: false,
        genre: None,
        year: None,
        track_number: None,
        disc_number: None,
        cover_art: None,
        rating: None,
        musical_key: None,
    }
}

/// A title: the tag's, else the file's stem, else `Unknown`.
pub open spec fn title_text(tagged: Option<String>, stem: Option<String>) -> Seq<char> {
    match (tagged, stem) {
        (Some(t), _) => t@,
        (None, Some(s)) => s@,
        (None, None) => "Unknown"@,
    }
}

fn title_or_stem(tagged: Option<String>, stem: Option<String>) -> (t: String)
    ensures
        t@ == title_text(tagged, stem),
{
    match tagged {
        Some(t) => t,
        None => match stem {
            Some(s) => s,
            None => "Unknown".to_owned(),
        },
    }
}

/// Whether the folder has to be searched for a cover: only when the tag has none.
pub fn wants_folder_cover(tag: &Option<TagFields>) -> (r: bool)
    ensures
        r == !(tag matches Some(t) && t.cover_art is Some),
{
    match tag {
        Some(t) => t.cover_art.is_none(),
        None => true,
    }
}

/// Whether a file goes the way of the DSD formats, by its extension.
pub fn is_dsd_extension(ext: &str) -> (r: bool)
    ensures
        r == (text::ascii_lowercase(ext@) == "dsf"@ || text::ascii_lowercase(ext@) == "dff"@),
{
    let lower = ext.to_ascii_lowercase();
    same_text(lower.as_str(), "dsf") || same_text(lower.as_str(), "dff")
}

/// Put together what was read of an ordinary audio file. A bit depth of zero is
/// no bit depth, the folder's cover stands in for the tag's, and the stem for
/// the title.
pub fn extract_file(
    file: FileFacts,
    props: AudioProperties,
    tag: Option<TagFields>,
    folder_cover: Option<CoverArt>,
) -> (e: ExtractedFile)
    ensures
        ({
            let t = match tag {
                Some(t) => t,
                None => no_tag(),
            };
            &&& e.title@ == title_text(t.title, file.stem)
            &&& e == (ExtractedFile {
                abs_path: file.abs_path,
                size: file.size,
                modified_ms: file.modified_ms,
                hash: file.hash,
                title: e.title,
                artist: t.artist,
                album: t.album,
                album_artist: t.album_artist,
                is_compilation: t.is_compilation,
                genre: t.genre,
                year: t.year,
                track_number: t.track_number,
                disc_number: t.disc_number,
                duration_ms: props.duration_ms,
                bitrate: props.bitrate,
                sample_rate: props.sample_rate,
                channels: props.channels,
                bit_depth: if props.bit_depth matches Some(d) && d > 0 {
                    props.bit_depth
                } else {
                    None
                },
                codec: props.codec,
                musical_key: t.musical_key,
                cover_art: if t.cover_art is Some {
                    t.cover_art
                } else {
                    folder_cover
                },
                rating: t.rating,
            })
        }),
{
    let t = match tag {
        Some(t) => t,
        None => TagFields {
            title: None,
            artist: None,
            album: None,
            album_artist: None,
            is_compilation: false,
            genre: None,
            year: None,
            track_number: None,
            disc_number: None,
            cover_art: None,
            rating: None,
            musical_key: None,
        },
    };
    let bit_depth = match props.bit_depth {
        Some(d) => if d > 0 {
            Some(d)
        } else {
            None
        },
        None => None,
    };
    let cover_art = match t.cover_art {
        Some(c) => Some(c),
        None => folder_cover,
    };
    ExtractedFile {
        abs_path: file.abs_path,
        size: file.size,
        modified_ms: file.modified_ms,
        hash: file.hash,
        title: title_or_stem(t.title, file.stem),
        artist: t.artist,
        album: t.album,
        album_artist: t.album_artist,
        is_compilation: t.is_compilation,
        genre: t.genre,
        year: t.year,
        track_number: t.track_number,
        disc_number: t.disc_number,
        duration_ms: props.duration_ms,
        bitrate: props.bitrate,
        sample_rate: props.sample_rate,
        channels: props.channels,
        bit_depth,
        codec: props.codec,
        musical_key: t.musical_key,
        cover_art,
        rating: t.rating,
    }
}

/// The two DSD containers.
#[derive(Clone, Copy, PartialEq, Eq, Debug, Structural)]
pub enum DsdContainer {
    Dsf,
    Dff,
}

/// What a DSD header says.
#[derive(PartialEq, Eq, Debug)]
pub struct DsdLayout {
    pub container: DsdContainer,
    /// How many times the CD rate, where it is a whole number of times.
    pub rate_multiple: Option<u32>,
    pub duration_ms: i64,
    pub sample_rate_hz: u32,
    pub channels: u32,
}

/// The container for a lower-case extension; anything else is refused by name.
pub fn dsd_container(ext: &str) -> (r: Result<DsdContainer, String>)
    ensures
        ext@ == "dsf"@ ==> r == Ok::<DsdContainer, String>(DsdContainer::Dsf),
        ext@ == "dff"@ ==> r == Ok::<DsdContainer, String>(DsdContainer::Dff),
        ext@ != "dsf"@ && ext@ != "dff"@ ==> (r matches Err(m) && m@ == "unexpected DSD ext: "@
            + ext@),
{
    proof {
        reveal_strlit("dsf");
        reveal_strlit("dff");
        assert("dsf"@[1] != "dff"@[1]);
    }
    if same_text(ext, "dsf") {
        Ok(DsdContainer::Dsf)
    } else if same_text(ext, "dff") {
        Ok(DsdContainer::Dff)
    } else {
        Err("unexpected DSD ext: ".to_owned().concat(ext))
    }
}

/// The name of a DSD rate: `DSD64` and its multiples, else the container's name.
pub open spec fn dsd_codec(layout: DsdLayout) -> Seq<char> {
    match layout.rate_multiple {
        Some(m) => "DSD"@ + decimal::nat_text(m as nat),
        None => match layout.container {
            DsdContainer::Dsf => "DSF"@,
            DsdContainer::Dff => "DFF"@,
        },
    }
}

/// Put together what was read of a DSD file. One bit, no bit rate, no album
/// artist, no key, no rating; the cover is the folder's.
pub fn extract_dsd_file(
    file: FileFacts,
    layout: DsdLayout,
    tag: Option<TagFields>,
    folder_cover: Option<CoverArt>,
) -> (e: ExtractedFile)
    ensures
        ({
            let t = match tag {
                Some(t) => t,
                None => no_tag(),
            };
            &&& e.title@ == title_text(t.title, file.stem)
            &&& e.codec matches Some(c) && c@ == dsd_codec(layout)
            &&& e == (ExtractedFile {
                abs_path: file.abs_path,
                size: file.size,
                modified_ms: file.modified_ms,
                hash: file.hash,
                title: e.title,
                artist: t.artist,
                album: t.album,
                album_artist: None,
                is_compilation: false,
                genre: t.genre,
                year: t.year,
                track_number: t.track_number,
                disc_number: t.disc_number,
                duration_ms: layout.duration_ms,
                bitrate: None,
                sample_rate: Some(layout.sample_rate_hz as i64),
                channels: Some(layout.channels as i64),
                bit_depth: Some(1),
                codec: e.codec,
                musical_key: None,
                cover_art: folder_cover,
                rating: None,
            })
        }),
{
    let (title, artist, album, genre, year, track_number, disc_number) = match tag {
        Some(t) => (t.title, t.artist, t.album, t.genre, t.year, t.track_number, t.disc_number),
        None => (None, None, None, None, None, None, None),
    };
    let codec = match layout.rate_multiple {
        Some(m) => "DSD".to_owned().concat(u64_text(m as u64).as_str()),
        None => match layout.container {
            DsdContainer::Dsf => "DSF".to_owned(),
            DsdContainer::Dff => "DFF".to_owned(),
        },
    };
    ExtractedFile {
        abs_path: file.abs_path,
        size: file.size,
        modified_ms: file.modified_ms,
        hash: file.hash,
        title: title_or_stem(title, file.stem),
        artist,
        album,
        album_artist: None,
        is_compilation: false,
        genre,
        year,
        track_number,
        disc_number,
        duration_ms: layout.duration_ms,
        bitrate: None,
        sample_rate: Some(layout.sample_rate_hz as i64),
        channels: Some(layout.channels as i64),
        bit_depth: Some(1),
        codec: Some(codec),
        musical_key: None,
        cover_art: folder_cover,
        rating: None,
    }
}

/// The columns of a track's row that a scan writes.
#[derive(PartialEq, Eq, Debug)]
pub struct TrackRow {
    pub folder_id: i64,
    pub file_hash: String,
    pub file_size: i64,
    pub file_modified: i64,
    pub title: String,
    pub album_id: Option<i64>,
    pub primary_artist: Option<i64>,
    pub track_number: Option<i64>,
    pub disc_number: Option<i64>,
    pub year: Option<i64>,
    pub duration_ms: i64,
    pub bitrate: Option<i64>,
    pub sample_rate: Option<i64>,
    pub channels: Option<i64>,
    pub bit_depth: Option<i64>,
    pub codec: Option<String>,
    pub musical_key: Option<String>,
    pub rating: Option<i64>,
}

/// One statement of a track's transaction.
#[derive(PartialEq, Eq, Debug)]
pub enum Write {
    /// Give an album the file's cover, unless it has one.
    LinkCover { album_id: i64 },
    /// Look for pictures of the track's artists beside the file.
    LinkArtistImages,
    /// Replace a track's columns and make it available.
    UpdateTrack { track_id: i64, row: TrackRow },
    /// Add a track.
    InsertTrack { library_id: i64, row: TrackRow, added_at: i64 },
    /// Make a track available.
    MakeAvailable { track_id: i64 },
    /// Fill in the bit depth, the codec and the key where they are empty.
    FillFormat { track_id: i64 },
    /// Drop a track's artists.
    ClearArtists { track_id: i64 },
    /// Give a track an artist at a position.
    LinkArtist { track_id: i64, artist_id: i64, position: i64 },
    /// Set a track's first artist.
    SetPrimaryArtist { track_id: i64, first: Option<i64> },
    /// Set the artist of the track's album.
    SetAlbumArtist { track_id: i64, artist_id: i64 },
    /// Drop a track's genres.
    ClearGenres { track_id: i64 },
    /// Give a track a genre.
    LinkGenre { track_id: i64, genre_id: i64 },
    /// Tell other devices of the track.
    Announce { track_id: i64, added_at: i64 },
}

/// Whether a statement makes a track available.
pub open spec fn makes_available(w: Write, track_id: i64) -> bool {
    match w {
        Write::MakeAvailable { track_id: id } => id == track_id,
        Write::UpdateTrack { track_id: id, .. } => id == track_id,
        _ => false,
    }
}

/// The first of a list of ids.
pub open spec fn first_id(ids: Seq<i64>) -> Option<i64> {
    if ids.len() > 0 {
        Some(ids[0])
    } else {
        None
    }
}

fn first_of(ids: &Vec<i64>) -> (r: Option<i64>)
    ensures
        r == first_id(ids@),
{
    if ids.len() > 0 {
        Some(ids[0])
    } else {
        None
    }
}

/// A track's columns, from what was read and the ids that it resolved to.
pub open spec fn row_of(
    e: ExtractedFile,
    folder_id: i64,
    album_id: Option<i64>,
    artist_ids: Seq<i64>,
) -> TrackRow {
    TrackRow {
        folder_id,
        file_hash: e.hash,
        file_size: e.size,
        file_modified: e.modified_ms,
        title: e.title,
        album_id,
        primary_artist: first_id(artist_ids),
        track_number: e.track_number,
        disc_number: e.disc_number,
        year: e.year,
        duration_ms: e.duration_ms,
        bitrate: e.bitrate,
        sample_rate: e.sample_rate,
        channels: e.channels,
        bit_depth: e.bit_depth,
        codec: e.codec,
        musical_key: e.musical_key,
        rating: match e.rating {
            Some(r) => Some(r as i64),
            None => None,
        },
    }
}

/// Fill in a track's columns.
pub fn track_row(
    e: &ExtractedFile,
    folder_id: i64,
    album_id: Option<i64>,
    artist_ids: &Vec<i64>,
) -> (row: TrackRow)
    ensures
        row == row_of(*e, folder_id, album_id, artist_ids@),
        row.title == e.title,
        row.track_number == e.track_number,
        row.disc_number == e.disc_number,
        row.year == e.year,
        row.duration_ms == e.duration_ms,
        row.bitrate == e.bitrate,
        row.sample_rate == e.sample_rate,
        row.channels == e.channels,
        row.bit_depth == e.bit_depth,
        row.codec == e.codec,
        row.musical_key == e.musical_key,
        row.file_hash == e.hash,
        row.file_size == e.size,
        row.file_modified == e.modified_ms,
        e.rating is None ==> row.rating is None,
        e.rating matches Some(n) ==> row.rating == Some(n as i64),
        row.folder_id == folder_id,
        row.album_id == album_id,
        artist_ids@.len() > 0 ==> row.primary_artist == Some(artist_ids@[0]),
        artist_ids@.len() == 0 ==> row.primary_artist is None,
{
    TrackRow {
        folder_id,
        file_hash: e.hash.clone(),
        file_size: e.size,
        file_modified: e.modified_ms,
        title: e.title.clone(),
        album_id,
        primary_artist: first_of(artist_ids),
        track_number: e.track_number,
        disc_number: e.disc_number,
        year: e.year,
        duration_ms: e.duration_ms,
        bitrate: e.bitrate,
        sample_rate: e.sample_rate,
        channels: e.channels,
        bit_depth: e.bit_depth,
        codec: clone_opt(&e.codec),
        musical_key: clone_opt(&e.musical_key),
        rating: match e.rating {
            Some(r) => Some(r as i64),
            None => None,
        },
    }
}

/// The links from a track to its artists, numbered from zero without a gap.
pub open spec fn artist_links(track_id: i64, ids: Seq<i64>) -> Seq<Write> {
    Seq::new(
        ids.len(),
        |i: int| Write::LinkArtist { track_id, artist_id: ids[i], position: i as i64 },
    )
}

/// The link to a genre, where there is one.
pub open spec fn genre_link(track_id: i64, genre_id: Option<i64>) -> Seq<Write> {
    match genre_id {
        Some(g) => seq![Write::LinkGenre { track_id, genre_id: g }],
        None => Seq::empty(),
    }
}

/// The cover for an album, where both are there.
pub open spec fn cover_link(e: ExtractedFile, album_id: Option<i64>) -> Seq<Write> {
    if e.cover_art is Some && album_id is Some {
        seq![Write::LinkCover { album_id: album_id->0 }]
    } else {
        Seq::empty()
    }
}

/// What is written for a known file that changed.
pub open spec fn update_plan(
    e: ExtractedFile,
    folder_id: i64,
    track_id: i64,
    added_at: i64,
    artist_ids: Seq<i64>,
    album_id: Option<i64>,
    genre_id: Option<i64>,
) -> Seq<Write> {
    cover_link(e, album_id) + seq![
        Write::LinkArtistImages,
        Write::UpdateTrack { track_id, row: row_of(e, folder_id, album_id, artist_ids) },
        Write::ClearArtists { track_id },
    ] + artist_links(track_id, artist_ids) + seq![Write::ClearGenres { track_id }] + genre_link(
        track_id,
        genre_id,
    ) + seq![Write::Announce { track_id, added_at }]
}

/// What is written for a new file, up to its row.
pub open spec fn insert_plan(
    e: ExtractedFile,
    library_id: i64,
    folder_id: i64,
    now: i64,
    artist_ids: Seq<i64>,
    album_id: Option<i64>,
) -> Seq<Write> {
    cover_link(e, album_id) + seq![
        Write::LinkArtistImages,
        Write::InsertTrack {
            library_id,
            row: row_of(e, folder_id, album_id, artist_ids),
            added_at: now,
        },
    ]
}

/// What is written for a new file once its row has an id.
pub open spec fn link_plan(
    track_id: i64,
    now: i64,
    artist_ids: Seq<i64>,
    genre_id: Option<i64>,
) -> Seq<Write> {
    artist_links(track_id, artist_ids) + genre_link(track_id, genre_id) + seq![
        Write::Announce { track_id, added_at: now },
    ]
}

/// The relinking of an unchanged file's artists.
pub open spec fn relink_plan(track_id: i64, ids: Seq<i64>) -> Seq<Write> {
    seq![Write::ClearArtists { track_id }] + artist_links(track_id, ids) + seq![
        Write::SetPrimaryArtist { track_id, first: first_id(ids) },
    ] + (match first_id(ids) {
        Some(a) => seq![Write::SetAlbumArtist { track_id, artist_id: a }],
        None => Seq::empty(),
    })
}

/// What is written for a known file that did not change: that it is there, a cover
/// for an album without one, the columns that are still empty, its artists where
/// they were resolved anew, and pictures of them. Only the artists are announced.
pub open spec fn unchanged_plan(
    e: ExtractedFile,
    track_id: i64,
    added_at: i64,
    album: Option<(Option<i64>, Option<i64>)>,
    relinked: Option<Seq<i64>>,
) -> Seq<Write> {
    seq![Write::MakeAvailable { track_id }] + (match backfill_album(e.cover_art, album) {
        Some(a) => seq![Write::LinkCover { album_id: a }],
        None => Seq::empty(),
    }) + seq![Write::FillFormat { track_id }] + (match relinked {
        Some(ids) => relink_plan(track_id, ids),
        None => Seq::empty(),
    }) + (if e.artist is Some {
        seq![Write::LinkArtistImages]
    } else {
        Seq::empty()
    }) + (match relinked {
        Some(_) => seq![Write::Announce { track_id, added_at }],
        None => Seq::empty(),
    })
}

/// The album that gets an unchanged file's cover: the track's own, while it has
/// none.
pub open spec fn backfill_album(
    cover: Option<CoverArt>,
    album: Option<(Option<i64>, Option<i64>)>,
) -> Option<i64> {
    if cover is Some {
        match album {
            Some((Some(a), None)) => Some(a),
            _ => None,
        }
    } else {
        None
    }
}

fn push_artist_links(plan: &mut Vec<Write>, track_id: i64, ids: &Vec<i64>)
    requires
        ids@.len() <= i64::MAX,
    ensures
        final(plan)@ == old(plan)@ + artist_links(track_id, ids@),
{
    let ghost start = plan@;
    let mut i: usize = 0;
    assert(start + artist_links(track_id, ids@).take(0) =~= start);
    while i < ids.len()
        invariant
            ids@.len() <= i64::MAX,
            i <= ids@.len(),
            plan@ == start + artist_links(track_id, ids@).take(i as int),
        decreases ids@.len() - i,
    {
        let ghost before = plan@;
        plan.push(Write::LinkArtist { track_id, artist_id: ids[i], position: i as i64 });
        assert(plan@ =~= start + artist_links(track_id, ids@).take(i + 1));
        i = i + 1;
    }
    assert(artist_links(track_id, ids@).take(i as int) =~= artist_links(track_id, ids@));
}

fn push_genre_link(plan: &mut Vec<Write>, track_id: i64, genre_id: Option<i64>)
    ensures
        final(plan)@ == old(plan)@ + genre_link(track_id, genre_id),
{
    let ghost start = plan@;
    match genre_id {
        Some(g) => plan.push(Write::LinkGenre { track_id, genre_id: g }),
        None => {},
    }
    assert(plan@ =~= start + genre_link(track_id, genre_id));
}

fn cover_writes(e: &ExtractedFile, album_id: Option<i64>) -> (plan: Vec<Write>)
    ensures
        plan@ == cover_link(*e, album_id),
{
    let mut plan: Vec<Write> = Vec::new();
    if e.cover_art.is_some() {
        match album_id {
            Some(a) => plan.push(Write::LinkCover { album_id: a }),
            None => {},
        }
    }
    assert(plan@ =~= cover_link(*e, album_id));
    plan
}

/// The statements for a known file that changed. The row keeps the time at
/// which it was first added.
pub fn update_writes(
    e: &ExtractedFile,
    folder_id: i64,
    track_id: i64,
    added_at: i64,
    artist_ids: &Vec<i64>,
    album_id: Option<i64>,
    genre_id: Option<i64>,
) -> (plan: Vec<Write>)
    requires
        artist_ids@.len() <= i64::MAX,
    ensures
        plan@ == update_plan(*e, folder_id, track_id, added_at, artist_ids@, album_id, genre_id),
{
    let mut plan = cover_writes(e, album_id);
    plan.push(Write::LinkArtistImages);
    plan.push(
        Write::UpdateTrack { track_id, row: track_row(e, folder_id, album_id, artist_ids) },
    );
    plan.push(Write::ClearArtists { track_id });
    assert(plan@ =~= cover_link(*e, album_id) + seq![
        Write::LinkArtistImages,
        Write::UpdateTrack { track_id, row: row_of(*e, folder_id, album_id, artist_ids@) },
        Write::ClearArtists { track_id },
    ]);
    push_artist_links(&mut plan, track_id, artist_ids);
    let ghost before = plan@;
    plan.push(Write::ClearGenres { track_id });
    assert(plan@ =~= before + seq![Write::ClearGenres { track_id }]);
    push_genre_link(&mut plan, track_id, genre_id);
    let ghost before2 = plan@;
    plan.push(Write::Announce { track_id, added_at });
    assert(plan@ =~= before2 + seq![Write::Announce { track_id, added_at }]);
    plan
}

/// The statements for a new file, up to its row.
pub fn insert_writes(
    e: &ExtractedFile,
    library_id: i64,
    folder_id: i64,
    now: i64,
    artist_ids: &Vec<i64>,
    album_id: Option<i64>,
) -> (plan: Vec<Write>)
    ensures
        plan@ == insert_plan(*e, library_id, folder_id, now, artist_ids@, album_id),
        plan@.len() > 0,
        plan@.last() matches Write::InsertTrack { library_id: l, row, added_at } && l == library_id
            && added_at == now && row.folder_id == folder_id && row.album_id == album_id
            && row.title == e.title && row.track_number == e.track_number && row.disc_number
            == e.disc_number && row.year == e.year && row.duration_ms == e.duration_ms
            && row.bitrate == e.bitrate && row.sample_rate == e.sample_rate && row.channels
            == e.channels && row.bit_depth == e.bit_depth && row.codec == e.codec
            && row.musical_key == e.musical_key && row.file_hash == e.hash && row.file_size
            == e.size && row.file_modified == e.modified_ms,
{
    let mut plan = cover_writes(e, album_id);
    plan.push(Write::LinkArtistImages);
    plan.push(
        Write::InsertTrack {
            library_id,
            row: track_row(e, folder_id, album_id, artist_ids),
            added_at: now,
        },
    );
    assert(plan@ =~= insert_plan(*e, library_id, folder_id, now, artist_ids@, album_id));
    plan
}

/// The statements for a new file once its row has an id.
pub fn link_writes(
    track_id: i64,
    now: i64,
    artist_ids: &Vec<i64>,
    genre_id: Option<i64>,
) -> (plan: Vec<Write>)
    requires
        artist_ids@.len() <= i64::MAX,
    ensures
        plan@ == link_plan(track_id, now, artist_ids@, genre_id),
{
    let mut plan: Vec<Write> = Vec::new();
    let ghost start = plan@;
    push_artist_links(&mut plan, track_id, artist_ids);
    assert(plan@ =~= artist_links(track_id, artist_ids@));
    push_genre_link(&mut plan, track_id, genre_id);
    let ghost before = plan@;
    plan.push(Write::Announce { track_id, added_at: now });
    assert(plan@ =~= before + seq![Write::Announce { track_id, added_at: now }]);
    plan
}

/// Which album gets an unchanged file's cover.
pub fn cover_backfill(
    cover: &Option<CoverArt>,
    album: Option<(Option<i64>, Option<i64>)>,
) -> (r: Option<i64>)
    ensures
        r == backfill_album(*cover, album),
{
    if cover.is_none() {
        return None;
    }
    match album {
        Some((Some(a), None)) => Some(a),
        _ => None,
    }
}

/// Whether an unchanged file's artists have to be linked anew: its artist tag
/// splits into another number of names than the track has.
pub fn needs_renormalising(e: &ExtractedFile, split_count: usize, linked: usize) -> (r: bool)
    ensures
        r == (e.artist is Some && linked != split_count),
{
    e.artist.is_some() && linked != split_count
}

/// The statements for a known file that did not change. `relinked` holds the
/// artists where they had to be resolved anew.
pub fn unchanged_writes(
    e: &ExtractedFile,
    track_id: i64,
    added_at: i64,
    album: Option<(Option<i64>, Option<i64>)>,
    relinked: &Option<Vec<i64>>,
) -> (plan: Vec<Write>)
    requires
        relinked matches Some(ids) ==> ids@.len() <= i64::MAX,
    ensures
        plan@ == unchanged_plan(
            *e,
            track_id,
            added_at,
            album,
            match relinked {
                Some(ids) => Some(ids@),
                None => None,
            },
        ),
        plan@.len() > 0,
        plan@[0] == (Write::MakeAvailable { track_id }),
{
    let mut plan: Vec<Write> = Vec::new();
    plan.push(Write::MakeAvailable { track_id });
    match cover_backfill(&e.cover_art, album) {
        Some(a) => plan.push(Write::LinkCover { album_id: a }),
        None => {},
    }
    plan.push(Write::FillFormat { track_id });
    let ghost head = plan@;
    match relinked {
        Some(ids) => {
            plan.push(Write::ClearArtists { track_id });
            push_artist_links(&mut plan, track_id, ids);
            plan.push(Write::SetPrimaryArtist { track_id, first: first_of(ids) });
            match first_of(ids) {
                Some(a) => plan.push(Write::SetAlbumArtist { track_id, artist_id: a }),
                None => {},
            }
            assert(plan@ =~= head + relink_plan(track_id, ids@));
        },
        None => {
            assert(plan@ =~= head + Seq::<Write>::empty());
        },
    }
    if e.artist.is_some() {
        plan.push(Write::LinkArtistImages);
    }
    if relinked.is_some() {
        plan.push(Write::Announce { track_id, added_at });
    }
    assert(plan@ =~= unchanged_plan(
        *e,
        track_id,
        added_at,
        album,
        match relinked {
            Some(ids) => Some(ids@),
            None => None,
        },
    ));
    plan
}

/// Putting a file back recovers its track: whether it came back as it was or
/// changed, one of the statements makes its row available.
pub proof fn a_file_put_back_recovers_its_track(
    e: ExtractedFile,
    folder_id: i64,
    track_id: i64,
    added_at: i64,
    album: Option<(Option<i64>, Option<i64>)>,
    relinked: Option<Seq<i64>>,
    artist_ids: Seq<i64>,
    album_id: Option<i64>,
    genre_id: Option<i64>,
)
    ensures
        exists|i: int|
            makes_available(
                #[trigger] unchanged_plan(e, track_id, added_at, album, relinked)[i],
                track_id,
            ) && 0 <= i < unchanged_plan(e, track_id, added_at, album, relinked).len(),
        exists|i: int|
            makes_available(
                #[trigger] update_plan(
                    e,
                    folder_id,
                    track_id,
                    added_at,
                    artist_ids,
                    album_id,
                    genre_id,
                )[i],
                track_id,
            ) && 0 <= i < update_plan(
                e,
                folder_id,
                track_id,
                added_at,
                artist_ids,
                album_id,
                genre_id,
            ).len(),
{
    let unchanged = unchanged_plan(e, track_id, added_at, album, relinked);
    assert(makes_available(unchanged[0], track_id));
    let update = update_plan(e, folder_id, track_id, added_at, artist_ids, album_id, genre_id);
    let at = cover_link(e, album_id).len() as int + 1;
    assert(makes_available(update[at], track_id));
}

/// Whatever changed, a track that is announced again keeps the time at which it
/// was first added; a new one gets the time of the scan. The announcement is
/// the last statement.
pub proof fn an_update_keeps_the_time_of_the_first_import(
    e: ExtractedFile,
    library_id: i64,
    folder_id: i64,
    track_id: i64,
    added_at: i64,
    now: i64,
    artist_ids: Seq<i64>,
    album_id: Option<i64>,
    genre_id: Option<i64>,
)
    ensures
        update_plan(e, folder_id, track_id, added_at, artist_ids, album_id, genre_id).last()
            == (Write::Announce { track_id, added_at }),
        forall|album: Option<(Option<i64>, Option<i64>)>| #[trigger]
            unchanged_plan(e, track_id, added_at, album, Some(artist_ids)).last() == (
            Write::Announce { track_id, added_at }),
        link_plan(track_id, now, artist_ids, genre_id).last() == (Write::Announce {
            track_id,
            added_at: now,
        }),
{
}

// What the rows of a track hold.

/// The row of a file that was read carries what was read, each field under its own name:
/// the row that a new file gets and the one that a changed file gets.
pub proof fn a_row_carries_the_file(
    e: ExtractedFile,
    folder_id: i64,
    album_id: Option<i64>,
    artist_ids: Seq<i64>,
)
    ensures
        ({
            let row = row_of(e, folder_id, album_id, artist_ids);
            &&& row.folder_id == folder_id
            &&& row.album_id == album_id
            &&& artist_ids.len() > 0 ==> row.primary_artist == Some(artist_ids[0])
            &&& artist_ids.len() == 0 ==> row.primary_artist is None
            &&& row.title == e.title
            &&& row.track_number == e.track_number
            &&& row.disc_number == e.disc_number
            &&& row.year == e.year
            &&& row.duration_ms == e.duration_ms
            &&& row.bitrate == e.bitrate
            &&& row.sample_rate == e.sample_rate
            &&& row.channels == e.channels
            &&& row.bit_depth == e.bit_depth
            &&& row.codec == e.codec
            &&& row.musical_key == e.musical_key
            &&& row.file_hash == e.hash
            &&& row.file_size == e.size
            &&& row.file_modified == e.modified_ms
            &&& e.rating is None ==> row.rating is None
            &&& e.rating matches Some(n) ==> row.rating == Some(n as i64)
        }),
{
}

/// A new file adds one track, with the time of the scan, in its library: the last statement
/// before the row has an id. No other statement adds or changes a track.
pub proof fn a_new_file_adds_one_track(
    e: ExtractedFile,
    library_id: i64,
    folder_id: i64,
    now: i64,
    artist_ids: Seq<i64>,
    album_id: Option<i64>,
)
    ensures
        ({
            let plan = insert_plan(e, library_id, folder_id, now, artist_ids, album_id);
            &&& plan.len() > 0
            &&& plan.last() == (Write::InsertTrack {
                library_id,
                row: row_of(e, folder_id, album_id, artist_ids),
                added_at: now,
            })
            &&& forall|i: int|
                0 <= i < plan.len() - 1 ==> !((#[trigger] plan[i]) is InsertTrack) && !(
                plan[i] is UpdateTrack)
            &&& plan.contains(Write::LinkArtistImages)
            &&& e.cover_art is Some && album_id is Some ==> plan.contains(
                Write::LinkCover { album_id: album_id->0 },
            )
            &&& forall|i: int| 0 <= i < plan.len() && (#[trigger] plan[i]) is LinkCover
                ==> e.cover_art is Some && album_id == Some(plan[i]->LinkCover_album_id)
        }),
{
    let plan = insert_plan(e, library_id, folder_id, now, artist_ids, album_id);
    let n = cover_link(e, album_id).len() as int;
    assert(plan[n] == Write::LinkArtistImages);
    if e.cover_art is Some && album_id is Some {
        assert(plan[0] == (Write::LinkCover { album_id: album_id->0 }));
    }
}

/// A changed file changes its own track, once, drops the artists and the genres that the
/// track had, and gives it those that were read, the artists in their order.
pub proof fn a_changed_file_changes_its_track(
    e: ExtractedFile,
    folder_id: i64,
    track_id: i64,
    added_at: i64,
    artist_ids: Seq<i64>,
    album_id: Option<i64>,
    genre_id: Option<i64>,
)
    requires
        artist_ids.len() <= i64::MAX,
    ensures
        ({
            let plan = update_plan(
                e,
                folder_id,
                track_id,
                added_at,
                artist_ids,
                album_id,
                genre_id,
            );
            let n = if e.cover_art is Some && album_id is Some {
                1int
            } else {
                0int
            };
            &&& n == 1 ==> plan[0] == (Write::LinkCover { album_id: album_id->0 })
            &&& plan[n] == Write::LinkArtistImages
            &&& plan[n + 1] == (Write::UpdateTrack {
                track_id,
                row: row_of(e, folder_id, album_id, artist_ids),
            })
            &&& plan[n + 2] == (Write::ClearArtists { track_id })
            &&& forall|i: int|
                0 <= i < artist_ids.len() ==> plan[n + 3 + i] == (Write::LinkArtist {
                    track_id,
                    artist_id: #[trigger] artist_ids[i],
                    position: i as i64,
                })
            &&& plan[n + 3 + artist_ids.len()] == (Write::ClearGenres { track_id })
            &&& genre_id matches Some(g) ==> plan[n + 4 + artist_ids.len()] == (Write::LinkGenre {
                track_id,
                genre_id: g,
            })
            &&& plan.last() == (Write::Announce { track_id, added_at })
            &&& plan.len() == n + 5 + artist_ids.len() + (if genre_id is Some {
                1int
            } else {
                0int
            })
        }),
{
}

/// A new track gets its artists in their order, its genre where it has one, and is then
/// announced with the time of the scan.
pub proof fn a_new_track_is_linked(
    track_id: i64,
    now: i64,
    artist_ids: Seq<i64>,
    genre_id: Option<i64>,
)
    requires
        artist_ids.len() <= i64::MAX,
    ensures
        ({
            let plan = link_plan(track_id, now, artist_ids, genre_id);
            &&& forall|i: int|
                0 <= i < artist_ids.len() ==> plan[i] == (Write::LinkArtist {
                    track_id,
                    artist_id: #[trigger] artist_ids[i],
                    position: i as i64,
                })
            &&& genre_id matches Some(g) ==> plan[artist_ids.len() as int] == (Write::LinkGenre {
                track_id,
                genre_id: g,
            })
            &&& plan.last() == (Write::Announce { track_id, added_at: now })
            &&& plan.len() == artist_ids.len() + 1 + (if genre_id is Some {
                1int
            } else {
                0int
            })
        }),
{
}

/// A file that did not change is made available, and the columns that are still empty are
/// filled in. Its artists are linked anew only where they were resolved anew, and only then
/// is it announced; its row is not changed otherwise.
pub proof fn an_unchanged_file_is_left_alone(
    e: ExtractedFile,
    track_id: i64,
    added_at: i64,
    album: Option<(Option<i64>, Option<i64>)>,
    ids: Seq<i64>,
)
    requires
        ids.len() <= i64::MAX,
    ensures
        ({
            let plan = unchanged_plan(e, track_id, added_at, album, None);
            &&& plan[0] == (Write::MakeAvailable { track_id })
            &&& plan.contains(Write::FillFormat { track_id })
            &&& e.artist is Some <==> plan.contains(Write::LinkArtistImages)
            &&& forall|i: int|
                0 <= i < plan.len() ==> !((#[trigger] plan[i]) is Announce) && !(
                plan[i] is LinkArtist) && !(plan[i] is ClearArtists) && !(plan[i] is UpdateTrack)
                    && !(plan[i] is InsertTrack) && !(plan[i] is ClearGenres)
        }),
        ({
            let plan = relink_plan(track_id, ids);
            &&& plan[0] == (Write::ClearArtists { track_id })
            &&& forall|i: int|
                0 <= i < ids.len() ==> plan[1 + i] == (Write::LinkArtist {
                    track_id,
                    artist_id: #[trigger] ids[i],
                    position: i as i64,
                })
            &&& plan[1 + ids.len() as int] == (Write::SetPrimaryArtist {
                track_id,
                first: if ids.len() > 0 {
                    Some(ids[0])
                } else {
                    None
                },
            })
            &&& ids.len() > 0 ==> plan.last() == (Write::SetAlbumArtist {
                track_id,
                artist_id: ids[0],
            })
            &&& plan.len() == 2 + ids.len() + (if ids.len() > 0 {
                1int
            } else {
                0int
            })
        }),
        relink_plan(track_id, ids).len() > 0 && (forall|i: int|
            0 <= i < relink_plan(track_id, ids).len() ==> unchanged_plan(
                e,
                track_id,
                added_at,
                album,
                Some(ids),
            ).contains(#[trigger] relink_plan(track_id, ids)[i])),
{
    let plan = unchanged_plan(e, track_id, added_at, album, None);
    let n = if backfill_album(e.cover_art, album) is Some {
        2int
    } else {
        1int
    };
    assert(plan[n] == (Write::FillFormat { track_id }));
    if e.artist is Some {
        assert(plan[n + 1] == Write::LinkArtistImages);
    }
    let relinked = relink_plan(track_id, ids);
    let full = unchanged_plan(e, track_id, added_at, album, Some(ids));
    assert forall|i: int| 0 <= i < relinked.len() implies full.contains(#[trigger] relinked[i]) by {
        assert(full[n + 1 + i] == relinked[i]);
    }
}

/// The cover of an unchanged file goes to its album only where the file has one and the
/// album has none.
pub proof fn only_an_album_without_a_cover_gets_one(
    cover: Option<CoverArt>,
    album_id: i64,
    artwork: i64,
)
    ensures
        backfill_album(cover, Some((Some(album_id), Some(artwork)))) is None,
        backfill_album(cover, Some((None, None))) is None,
        backfill_album(cover, None) is None,
        backfill_album(None, Some((Some(album_id), None))) is None,
        cover is Some ==> backfill_album(cover, Some((Some(album_id), None))) == Some(album_id),
{
}

/// A title is the tag's where there is one, whatever the file is called, and else the
/// file's name.
pub proof fn a_title_is_the_tags_or_the_files(t: String, s: String, stem: Option<String>)
    ensures
        title_text(Some(t), stem) == t@,
        title_text(None, Some(s)) == s@,
        title_text(None, None) == "Unknown"@,
{
}

/// A DSD rate is named by its multiple, and else by its container.
pub proof fn a_dsd_rate_has_a_name(layout: DsdLayout)
    ensures
        layout.rate_multiple matches Some(m) ==> dsd_codec(layout) == "DSD"@ + decimal::nat_text(
            m as nat,
        ),
        layout.rate_multiple is None && layout.container == DsdContainer::Dsf ==> dsd_codec(layout)
            == "DSF"@,
        layout.rate_multiple is None && layout.container == DsdContainer::Dff ==> dsd_codec(layout)
            == "DFF"@,
{
}

/// A file without a tag says nothing of the track.
pub proof fn no_tag_says_nothing()
    ensures
        no_tag().title is None && no_tag().artist is None && no_tag().album is None,
        no_tag().album_artist is None && !no_tag().is_compilation && no_tag().genre is None,
        no_tag().year is None && no_tag().track_number is None && no_tag().disc_number is None,
        no_tag().cover_art is None && no_tag().rating is None && no_tag().musical_key is None,
{
}

} // verus!
