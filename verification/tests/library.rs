//! Scanning folders, and what is made of what is found.

use waveflow_commands::error::AppError;
use waveflow_commands::maintenance::{regenerated, safety_backup, sanitize_filename, wants_thumbnails};
use waveflow_commands::mood_radio::{
    analysis_coverage, mood_radio_by_album, start_mood_radio, AlbumCandidate, Mood, MoodPlan,
};
use waveflow_commands::motion_artwork::{
    fetch_album_motion_artwork, motion_artwork_from, AlbumAnswer, MotionInfo,
};
use waveflow_commands::scan::{
    analyses_after, artist_list, emit_track_insert_from_extracted, folder_not_found,
    is_audio_extension, maybe_emit_progress, scan_in_flight, ArtistImageScan, CoverArt, DiskStat,
    ExtractedFile, Lookup, ProbeRow, Scan, ScanInFlightGuard, ScanSummary, ScansInFlight,
    UpsertCache, Verdict, Walked,
};
use waveflow_commands::scan_track::{
    cover_backfill, dsd_container, extract_dsd_file, extract_file, insert_writes, is_dsd_extension,
    link_writes, needs_renormalising, track_row, unchanged_writes, update_writes,
    wants_folder_cover, AudioProperties, DsdContainer, DsdLayout, FileFacts, TagFields, Write,
};
use waveflow_commands::similar::{
    add_pictures, enrich_with_deezer_pictures, ensure_similar_cached, expiry, fetch_and_cache,
    first_picture, get_similar_artists, known_pictures, lastfm_will_do, pick_hit, picture_row,
    similar_plan, try_deezer, DeezerHit, KnownPicture, LocalArtist, Picture, RawSimilar, SimilarPlan, CACHE_TTL_MS,
};
use waveflow_commands::text_map::TextMap;

fn some(s: &str) -> Option<String> {
    Some(s.to_owned())
}

fn summary() -> ScanSummary {
    ScanSummary { folder_id: 1, scanned: 50, added: 1, updated: 2, skipped: 3, errors: 4, removed: 5 }
}

fn file(path: &str, hash: &str, modified_ms: i64) -> ExtractedFile {
    ExtractedFile {
        abs_path: path.to_owned(),
        size: 10,
        modified_ms,
        hash: hash.to_owned(),
        title: "Song".to_owned(),
        artist: some("One"),
        album: some("Album"),
        album_artist: None,
        is_compilation: false,
        genre: None,
        year: Some(1999),
        track_number: Some(2),
        disc_number: None,
        duration_ms: 1_000,
        bitrate: None,
        sample_rate: None,
        channels: None,
        bit_depth: None,
        codec: None,
        musical_key: None,
        cover_art: None,
        rating: None,
    }
}

#[test]
fn a_scan_counts_every_file_once() {
    let mut known = TextMap::new();
    known.insert("/same".to_owned(), DiskStat { size: 1, modified_ms: 2 });
    known.insert("/touched".to_owned(), DiskStat { size: 1, modified_ms: 2 });
    known.insert("/gone".to_owned(), DiskStat { size: 1, modified_ms: 2 });
    let mut probe = TextMap::new();
    let row = |track_id, hash: &str| ProbeRow {
        track_id,
        modified_ms: 2,
        hash: hash.to_owned(),
        added_at: 77,
    };
    probe.insert("/touched".to_owned(), row(8, "h"));
    known.insert("/bad".to_owned(), DiskStat { size: 1, modified_ms: 2 });
    let mut scan = Scan::begin(1, 4, known, probe);
    assert_eq!(scan.opening_progress().total, 4);
    assert!(scan.wants_stat("/same"));
    assert!(!scan.wants_stat("/new"));
    let stat = Some(DiskStat { size: 1, modified_ms: 2 });
    assert_eq!(scan.walk_one("/same", stat), Walked::Skip { tick: None });
    assert_eq!(scan.walk_one("/touched", Some(DiskStat { size: 1, modified_ms: 3 })), Walked::Extract);
    assert_eq!(scan.walk_one("/new", None), Walked::Extract);
    assert_eq!(scan.walk_one("/bad", None), Walked::Extract);
    scan.begin_reading();
    let verdict = scan.file_read(&file("/touched", "other", 3));
    assert_eq!(verdict, Verdict::Changed { track_id: 8, added_at: 77 });
    assert!(!scan.file_written(verdict).commit);
    let verdict = scan.file_read(&file("/new", "n", 3));
    assert_eq!(verdict, Verdict::New);
    scan.file_written(verdict);
    scan.file_failed("/bad");
    assert_eq!(scan.missing(), vec!["/gone".to_owned()]);
    scan.row_removed(1);
    let s = &scan.summary;
    assert_eq!((s.scanned, s.added, s.updated, s.skipped, s.errors, s.removed), (4, 1, 1, 1, 1, 1));
    assert!(scan.closing_progress().done);
    assert!(analyses_after(&scan.summary));
}

#[test]
fn a_file_that_vanishes_while_it_is_scanned_is_missing() {
    let mut known = TextMap::new();
    known.insert("/stays".to_owned(), DiskStat { size: 1, modified_ms: 2 });
    known.insert("/goes".to_owned(), DiskStat { size: 1, modified_ms: 2 });
    let mut scan = Scan::begin(1, 3, known, TextMap::new());
    for path in ["/stays", "/goes", "/new"] {
        assert_eq!(scan.walk_one(path, None), Walked::Extract);
    }
    scan.begin_reading();
    scan.file_failed("/stays");
    scan.file_vanished();
    scan.file_vanished();
    assert_eq!(scan.missing(), vec!["/goes".to_owned()]);
    assert_eq!((scan.summary.scanned, scan.summary.errors), (3, 3));
}

#[test]
fn an_unchanged_file_is_recognised() {
    let mut probe = TextMap::new();
    probe.insert(
        "/a".to_owned(),
        ProbeRow { track_id: 8, modified_ms: 3, hash: "h".to_owned(), added_at: 77 },
    );
    let mut scan = Scan::begin(1, 0, TextMap::new(), probe);
    scan.begin_reading();
    assert_eq!(
        scan.file_read(&file("/a", "h", 3)),
        Verdict::Unchanged { track_id: 8, added_at: 77 }
    );
}

#[test]
fn progress_is_told_now_and_then() {
    assert!(maybe_emit_progress(&summary(), 25, 100).is_some());
    assert!(maybe_emit_progress(&summary(), 26, 100).is_none());
    assert_eq!(folder_not_found(3), AppError::Other("folder 3 not found".to_owned()));
    assert!(is_audio_extension(&some("FLAC"), &vec!["flac".to_owned()]));
    assert!(!is_audio_extension(&some("txt"), &vec!["flac".to_owned()]));
    assert!(!is_audio_extension(&None, &vec!["flac".to_owned()]));
}

#[test]
fn scans_are_counted_while_they_run() {
    let mut scans = ScansInFlight { count: 0 };
    let one = ScanInFlightGuard::new(&mut scans);
    let two = ScanInFlightGuard::new(&mut scans);
    one.release(&mut scans);
    assert!(scan_in_flight(&scans));
    two.release(&mut scans);
    assert!(!scan_in_flight(&scans));
}

#[test]
fn names_are_looked_up_once() {
    let mut cache = UpsertCache::new();
    assert_eq!(cache.artist(""), Lookup::Blank);
    assert_eq!(cache.artist("one"), Lookup::Ask);
    cache.learn_artist("one".to_owned(), Some(4));
    assert_eq!(cache.artist("one"), Lookup::Known(4));
    cache.learn_genre("jazz".to_owned(), None);
    assert_eq!(cache.genre("jazz"), Lookup::Ask);
    assert_eq!(artist_list(&vec![Some(1), None, Some(2), Some(1)]), vec![1, 2, 1]);
}

#[test]
fn pictures_of_artists_are_counted() {
    let mut scan = ArtistImageScan::begin(300);
    let mut commits = 0;
    for i in 0..300 {
        if scan.artist_done(i % 4 != 0) {
            commits += 1;
        }
    }
    assert_eq!((scan.summary.considered, scan.summary.linked), (300, 225));
    assert_eq!(commits, 1);
    scan.various_artists(Some(true));
    assert_eq!((scan.summary.considered, scan.summary.linked), (301, 226));
    scan.various_artists(None);
    assert_eq!(scan.summary.considered, 301);
}

#[test]
fn a_new_track_is_announced_in_full() {
    let wire = emit_track_insert_from_extracted(&file("/a", "h", 3), vec!["One".to_owned()], 9);
    assert_eq!(wire.file_hash, "h");
    assert_eq!(wire.file_modified, 3);
    assert_eq!(wire.added_at, 9);
    assert_eq!(wire.album_title, some("Album"));
    assert_eq!(wire.artists, vec!["One".to_owned()]);
}

fn facts() -> FileFacts {
    FileFacts {
        abs_path: "/a".to_owned(),
        size: 1,
        modified_ms: 2,
        hash: "h".to_owned(),
        stem: some("stem"),
    }
}

fn art(hash: &str) -> CoverArt {
    CoverArt { hash: hash.to_owned(), format: "jpg".to_owned(), source: "s".to_owned() }
}

fn tag(title: Option<&str>, cover: Option<&str>) -> TagFields {
    TagFields {
        title: title.map(|t| t.to_owned()),
        artist: None,
        album: None,
        album_artist: None,
        is_compilation: true,
        genre: None,
        year: None,
        track_number: None,
        disc_number: None,
        cover_art: cover.map(art),
        rating: Some(3),
        musical_key: None,
    }
}

#[test]
fn a_file_is_put_together_from_its_parts() {
    let props = |bit_depth| AudioProperties {
        duration_ms: 5,
        bitrate: None,
        sample_rate: None,
        channels: None,
        bit_depth,
        codec: some("FLAC"),
    };
    let e = extract_file(facts(), props(Some(0)), Some(tag(None, None)), Some(art("folder")));
    assert_eq!(e.title, "stem");
    assert_eq!(e.bit_depth, None);
    assert_eq!(e.cover_art, Some(art("folder")));
    assert!(e.is_compilation);
    let e = extract_file(facts(), props(Some(24)), Some(tag(Some("T"), Some("own"))), None);
    assert_eq!((e.title.as_str(), e.bit_depth), ("T", Some(24)));
    assert_eq!(e.cover_art, Some(art("own")));
    let mut nameless = facts();
    nameless.stem = None;
    assert_eq!(extract_file(nameless, props(None), None, None).title, "Unknown");
    assert!(wants_folder_cover(&None));
    assert!(!wants_folder_cover(&Some(tag(None, Some("own")))));
}

#[test]
fn direct_streams_are_named_by_their_rate() {
    let layout = |rate_multiple| DsdLayout {
        container: DsdContainer::Dff,
        rate_multiple,
        duration_ms: 5,
        sample_rate_hz: 2_822_400,
        channels: 2,
    };
    let e = extract_dsd_file(facts(), layout(Some(64)), None, None);
    assert_eq!(e.codec, some("DSD64"));
    assert_eq!(e.sample_rate, Some(2_822_400));
    assert_eq!(extract_dsd_file(facts(), layout(None), None, None).codec, some("DFF"));
    assert!(is_dsd_extension("DSF"));
    assert!(!is_dsd_extension("flac"));
    assert_eq!(dsd_container("dsf"), Ok(DsdContainer::Dsf));
    assert_eq!(dsd_container("x"), Err("unexpected DSD ext: x".to_owned()));
}

#[test]
fn rows_are_written_in_order() {
    let mut e = file("/a", "h", 3);
    e.cover_art = Some(art("c"));
    let plan = update_writes(&e, 1, 8, 77, &vec![4, 5], Some(6), Some(7));
    assert_eq!(
        plan,
        vec![
            Write::LinkCover { album_id: 6 },
            Write::LinkArtistImages,
            Write::UpdateTrack { track_id: 8, row: track_row(&e, 1, Some(6), &vec![4, 5]) },
            Write::ClearArtists { track_id: 8 },
            Write::LinkArtist { track_id: 8, artist_id: 4, position: 0 },
            Write::LinkArtist { track_id: 8, artist_id: 5, position: 1 },
            Write::ClearGenres { track_id: 8 },
            Write::LinkGenre { track_id: 8, genre_id: 7 },
            Write::Announce { track_id: 8, added_at: 77 },
        ]
    );
    let plan = insert_writes(&e, 2, 1, 99, &vec![4], None);
    assert!(matches!(plan.last(), Some(Write::InsertTrack { library_id: 2, added_at: 99, .. })));
    assert_eq!(
        link_writes(8, 99, &vec![], None),
        vec![Write::Announce { track_id: 8, added_at: 99 }]
    );
    let plan = unchanged_writes(&e, 8, 77, Some((Some(6), None)), &None);
    assert_eq!(
        plan,
        vec![
            Write::MakeAvailable { track_id: 8 },
            Write::LinkCover { album_id: 6 },
            Write::FillFormat { track_id: 8 },
            Write::LinkArtistImages,
        ]
    );
    let plan = unchanged_writes(&file("/a", "h", 3), 8, 77, None, &None);
    assert!(plan.contains(&Write::MakeAvailable { track_id: 8 }));
    assert_eq!(cover_backfill(&e.cover_art, Some((Some(6), Some(1)))), None);
    assert!(needs_renormalising(&e, 2, 1));
    assert!(!needs_renormalising(&e, 1, 1));
}

fn raw(name: &str, canonical: &str) -> RawSimilar {
    RawSimilar {
        name: name.to_owned(),
        canonical: canonical.to_owned(),
        score_bits: 0x3f00_0000,
        picture_url: None,
        source: "lastfm".to_owned(),
    }
}

#[test]
fn similar_artists_are_kept_for_a_while() {
    assert_eq!(similar_plan(false, Some(10), 9), SimilarPlan::Cached);
    assert_eq!(similar_plan(false, None, 9), SimilarPlan::Fetch);
    assert_eq!(similar_plan(true, None, 9), SimilarPlan::Nothing);
    assert_eq!(expiry(5), 5 + CACHE_TTL_MS);
    assert!(!ensure_similar_cached("", None, 1));
    assert!(ensure_similar_cached("one", None, 1));
    assert!(!ensure_similar_cached("one", Some(2), 1));
    assert!(!lastfm_will_do(&Some(Vec::new())));
    assert!(lastfm_will_do(&Some(vec![raw("A", "a")])));
    let f = fetch_and_cache(Some(vec![raw("A", "a")]), None);
    assert_eq!((f.source, f.artists.len()), ("lastfm", 1));
    assert_eq!(fetch_and_cache(None, None).source, "deezer");
    let names = vec!["Ones".to_owned(), "ÉTÉ".to_owned()];
    assert_eq!(try_deezer(&names, "été"), Some(1));
    assert_eq!(try_deezer(&names, "x"), None);
    assert_eq!(first_picture(&None, &some("b")), some("b"));
    assert_eq!(first_picture(&some("a"), &some("b")), some("a"));
}

#[test]
fn similar_artists_are_shown_with_what_is_known() {
    let picture = |url: &str| Picture { url: some(url), hash: None };
    let known = known_pictures(
        &vec!["a".to_owned(), "b".to_owned()],
        vec![
            KnownPicture { canonical: "a".to_owned(), picture: picture("u") },
            KnownPicture { canonical: "z".to_owned(), picture: picture("v") },
        ],
    );
    let artists = vec![raw("A", "a"), raw("B", "b"), raw("?", "")];
    assert_eq!(enrich_with_deezer_pictures(&artists, &known, false), vec!["B".to_owned()]);
    assert!(enrich_with_deezer_pictures(&artists, &known, true).is_empty());
    let mut local = TextMap::new();
    local.insert("b".to_owned(), LocalArtist { id: 5, picture_hash: some("hash") });
    let shown = get_similar_artists(&artists, &local, &known);
    assert_eq!(shown[0].picture_url, some("u"));
    assert_eq!(shown[0].library_artist_id, None);
    assert_eq!(shown[1].library_artist_id, Some(5));
    assert_eq!(shown[1].picture_hash, some("hash"));
    assert_eq!(shown[0].score_bits, 0x3f00_0000);
}

#[test]
fn pictures_that_are_found_are_known_from_then_on() {
    let hit = |id: i64, canonical: &str, xl: Option<&str>, big: Option<&str>| DeezerHit {
        id,
        name: canonical.to_uppercase(),
        canonical: canonical.to_owned(),
        picture_xl: xl.map(str::to_owned),
        picture_big: big.map(str::to_owned),
    };
    let hits = vec![
        hit(1, "ab", None, None),
        hit(2, "b", None, Some("big")),
        hit(3, "b", Some("xl"), Some("big")),
    ];
    assert_eq!(pick_hit(&hits, "b"), Some(1));
    assert_eq!(pick_hit(&hits, "c"), None);
    let row = picture_row(&hits[1], some("hash"), 5);
    assert_eq!((row.deezer_id, row.name.as_str()), (2, "B"));
    assert_eq!(row.picture, Picture { url: some("big"), hash: some("hash") });
    assert_eq!((row.fetched_at, row.expires_at), (5, 5 + CACHE_TTL_MS));
    assert_eq!(picture_row(&hits[2], None, 5).picture, Picture { url: some("xl"), hash: None });

    let artists = vec![raw("A", "a"), raw("B", "b")];
    let wanted = vec!["a".to_owned(), "b".to_owned()];
    let mut known = known_pictures(
        &wanted,
        vec![KnownPicture {
            canonical: "a".to_owned(),
            picture: Picture { url: some("mine"), hash: None },
        }],
    );
    assert_eq!(enrich_with_deezer_pictures(&artists, &known, false), vec!["B".to_owned()]);
    add_pictures(
        &mut known,
        vec![KnownPicture { canonical: "b".to_owned(), picture: row.picture }],
    );
    assert!(enrich_with_deezer_pictures(&artists, &known, false).is_empty());
    let shown = get_similar_artists(&artists, &TextMap::new(), &known);
    assert_eq!(shown[0].picture_url, some("mine"));
    assert_eq!((&shown[1].picture_url, &shown[1].picture_hash), (&some("big"), &some("hash")));
}

#[test]
fn moods_have_their_tempo() {
    for mood in [Mood::Focus, Mood::Chill, Mood::Workout, Mood::Party, Mood::Sleep] {
        let p = mood.profile();
        assert!(p.bpm_min.map_or(true, |m| m <= p.bpm_centre));
        assert!(p.bpm_max.map_or(true, |m| p.bpm_centre <= m));
        assert!(!p.genre_words.is_empty());
    }
    assert_eq!(Mood::Focus.profile().bpm_centre, 88);
    assert_eq!(start_mood_radio(true, 3, 0), Ok(MoodPlan::Records));
    assert_eq!(start_mood_radio(true, 0, 3), Ok(MoodPlan::Tracks));
    assert_eq!(
        start_mood_radio(false, 0, 0),
        Err(AppError::Other(
            "no tracks match this mood — run BPM analysis on your library first".to_owned()
        ))
    );
    assert_eq!(analysis_coverage(None, 5), (0, 5));
    assert_eq!(analysis_coverage(Some(2), 5), (2, 5));
    let rows = vec![
        AlbumCandidate { album_id: 1, track_count: 10 },
        AlbumCandidate { album_id: 2, track_count: 35 },
        AlbumCandidate { album_id: 3, track_count: 9 },
    ];
    let chosen: Vec<i64> = mood_radio_by_album(&rows, &vec![3, 1, 9, 2]).iter().map(|c| c.album_id).collect();
    assert_eq!(chosen, vec![3, 1, 2]);
}

#[test]
fn names_become_fit_for_files() {
    assert_eq!(sanitize_filename(" a/b:c "), "a_b_c");
    assert_eq!(sanitize_filename("été-1_2"), "été-1_2");
    assert_eq!(sanitize_filename("   "), "profile");
    for name in [" a/b:c ", "...", "", "\u{3000}x\u{3000}", "  été  "] {
        let once = sanitize_filename(name);
        assert_eq!(sanitize_filename(&once), once);
    }
    for white in [
        '\t', '\n', '\u{b}', '\u{c}', '\r', '\u{85}', '\u{a0}', '\u{1680}', '\u{2000}', '\u{200a}',
        '\u{2028}', '\u{2029}', '\u{202f}', '\u{205f}', '\u{3000}',
    ] {
        assert_eq!(sanitize_filename(&format!("{white}a b{white}")), "_a b_");
        assert_eq!(sanitize_filename(&white.to_string()), "_");
    }
    assert_eq!(sanitize_filename(""), "profile");
    assert_eq!(sanitize_filename("  Été 2024_x-y  "), "Été 2024_x-y");
    let b = safety_backup(3, "Me/You", Some(4), "20240102");
    assert_eq!(b.name, "pre-reset-Me_You-3-20240102.waveflow");
    assert_eq!(b.staging_name, "pre-reset-Me_You-3-20240102.part");
    assert!(b.checkpoint_file);
    assert!(!safety_backup(3, "Me", Some(3), "s").checkpoint_file);
    assert!(wants_thumbnails("cover"));
    assert!(!wants_thumbnails("cover_1x"));
    assert!(!wants_thumbnails("_2x"));
    assert_eq!(regenerated(&vec![1, 2, u32::MAX]), u32::MAX);
    assert_eq!(regenerated(&vec![1, 2]), 3);
}

#[test]
fn the_first_moving_cover_wins() {
    let answer = |id: &str, url: Option<&str>| AlbumAnswer {
        plugin_id: id.to_owned(),
        info: Some(MotionInfo {
            motion_cover_url: url.map(|u| u.to_owned()),
            motion_cover_tall_url: some("tall"),
        }),
    };
    let failed = || AlbumAnswer { plugin_id: "f".to_owned(), info: None };
    let found = fetch_album_motion_artwork(
        false,
        vec![failed(), answer("a", None), answer("b", Some("u")), answer("c", Some("v"))],
    )
    .unwrap();
    assert_eq!((found.plugin_id.as_str(), found.square_url.as_str()), ("b", "u"));
    assert_eq!(found.tall_url, some("tall"));
    assert_eq!(fetch_album_motion_artwork(true, vec![answer("b", Some("u"))]), None);
    assert_eq!(motion_artwork_from(failed()), None);
}
