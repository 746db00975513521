//! Playlists, and lists of files that stand for them.

use waveflow_commands::error::AppError;
use waveflow_commands::playlist::{
    add_source_to_playlist, add_tracks_to_playlist, create_playlist, created_playlist,
    delete_playlist, imported_draft, parse_source, remove_track_from_playlist,
    reorder_playlist_track, update_playlist, CreatePlaylistInput, OpPayload, TrackSource,
    UpdatePlaylistInput,
};
use waveflow_commands::playlist_m3u::{
    canonical_path_key, decode, export_playlist_m3u, import_playlist_m3u, imported_name,
    match_candidates, playlist_entries, Candidate, ExportRow, LibraryPath, PathKeys,
};
use waveflow_commands::smart_playlists::{
    create_custom_smart_playlist, get_custom_smart_playlist_rules, is_custom_payload,
    parse_custom_rules, preview_custom_smart_playlist, regenerate_custom_smart_playlist,
    update_custom_smart_playlist, CustomSmartPlaylistInput, SmartRow, StoredRules,
};

fn other<T>(m: &str) -> Result<T, AppError> {
    Err(AppError::Other(m.to_owned()))
}

fn some(s: &str) -> Option<String> {
    Some(s.to_owned())
}

#[test]
fn a_playlist_is_made_with_a_name() {
    let input = |name: &str| CreatePlaylistInput {
        name: name.to_owned(),
        description: some("d"),
        color_id: None,
        icon_id: some("heart"),
    };
    let draft = create_playlist(&input("  Mine "), 9).unwrap();
    assert_eq!(draft.name, "Mine");
    assert_eq!(draft.color_id, "violet");
    assert_eq!(draft.icon_id, "heart");
    let (made, op) = created_playlist(4, draft);
    assert_eq!((made.id, made.created_at, made.updated_at, made.is_smart), (4, 9, 9, 0));
    assert_eq!(op.entity, "playlist");
    assert_eq!(op.entity_id, "4");
    assert_eq!(op.op, "insert");
    assert_eq!(
        op.payload,
        Some(OpPayload::Fields {
            name: "Mine".to_owned(),
            description: some("d"),
            color_id: "violet".to_owned(),
            icon_id: "heart".to_owned(),
        })
    );
    assert_eq!(create_playlist(&input(" \t"), 9), other("playlist name cannot be empty"));
    assert_eq!(imported_draft("Road".to_owned(), 9).icon_id, "music");
}

#[test]
fn a_change_is_sent_field_by_field() {
    let change = UpdatePlaylistInput {
        name: some(" New "),
        description: None,
        color_id: some("red"),
        icon_id: None,
    };
    let (patch, ops) = update_playlist(4, true, &change).unwrap();
    assert_eq!(patch.name, some("New"));
    assert_eq!(patch.description, None);
    assert_eq!(ops.len(), 2);
    assert_eq!(ops[0].field, some("name"));
    assert_eq!(ops[0].payload, Some(OpPayload::Value("New".to_owned())));
    assert_eq!(ops[1].field, some("color_id"));
    assert_eq!(
        update_playlist(4, false, &change),
        other("playlist 4 not found in active profile")
    );
    let blank = UpdatePlaylistInput { name: some(" "), description: None, color_id: None, icon_id: None };
    assert_eq!(update_playlist(4, true, &blank), other("playlist name cannot be empty"));
}

#[test]
fn tracks_come_and_go() {
    let op = add_tracks_to_playlist(4, vec![1, 2]);
    assert_eq!(op.op, "insert");
    assert_eq!(op.field, some("tracks"));
    assert_eq!(op.payload, Some(OpPayload::Tracks(vec![1, 2])));
    let op = remove_track_from_playlist(4, 1);
    assert_eq!(op.op, "delete");
    assert_eq!(op.payload, Some(OpPayload::Tracks(vec![1])));
    let op = reorder_playlist_track(4, 1, true, Some(3)).unwrap().unwrap();
    assert_eq!(op.payload, Some(OpPayload::Position { track_id: 1, position: 3 }));
    assert_eq!(reorder_playlist_track(4, 1, true, None), Ok(None));
    assert_eq!(
        reorder_playlist_track(4, 1, false, None),
        other("track 1 not in playlist 4")
    );
    assert_eq!(delete_playlist(4, true).unwrap().op, "delete");
    assert_eq!(delete_playlist(4, false), other("playlist 4 not found in active profile"));
}

#[test]
fn a_source_is_one_of_three() {
    assert_eq!(parse_source("folder", 1), Ok(TrackSource::Folder(1)));
    assert_eq!(parse_source("album", 2), Ok(TrackSource::Album(2)));
    assert_eq!(parse_source("artist", 3), Ok(TrackSource::Artist(3)));
    assert_eq!(
        parse_source("genre", 4),
        other("unknown source_type 'genre', expected folder/album/artist")
    );
    let op = add_source_to_playlist(4, "album", 2, vec![7]);
    assert_eq!(
        op.payload,
        Some(OpPayload::TracksFrom {
            track_ids: vec![7],
            source_type: "album".to_owned(),
            source_id: 2,
        })
    );
}

fn row(title: &str, artist: Option<&str>, ms: i64, path: &str) -> ExportRow {
    ExportRow {
        title: title.to_owned(),
        artist_name: artist.map(|a| a.to_owned()),
        duration_ms: ms,
        file_path: path.to_owned(),
    }
}

#[test]
fn an_exported_list_reads_back() {
    let rows = vec![
        row("Song", Some(" One "), 61_499, "/m/a.flac"),
        row("Two\nLines", None, -1, "/m/b.flac"),
    ];
    let list = export_playlist_m3u("My\nList", &rows);
    assert!(list.starts_with("#EXTM3U\n#PLAYLIST:"), "{list}");
    assert!(list.contains("#EXTINF:61,One - Song\n/m/a.flac\n"), "{list}");
    assert_eq!(playlist_entries(&list), vec!["/m/a.flac".to_owned(), "/m/b.flac".to_owned()]);
}

#[test]
fn lists_of_other_programs_are_read() {
    assert_eq!(
        playlist_entries(&decode(&b"\xef\xbb\xbf/a\n".to_vec())),
        vec!["/a".to_owned()]
    );
    assert_eq!(decode(&b"/caf\xe9".to_vec()), "/café");
    assert_eq!(decode(&"/café".as_bytes().to_vec()), "/café");
    assert_eq!(
        playlist_entries("#EXTM3U\r\n\r\n /a b \r\n# note\r\n/c"),
        vec!["/a b".to_owned(), "/c".to_owned()]
    );
    assert_eq!(imported_name(&some("Road")), "Road");
    assert_eq!(imported_name(&None), "Imported playlist");
}

#[test]
fn paths_are_matched_by_path_and_then_by_name() {
    let keys = |key: &str, base: &str| PathKeys { key: key.to_owned(), base: some(base) };
    let library = vec![
        LibraryPath { id: 1, keys: keys("/m/a.flac", "a.flac") },
        LibraryPath { id: 2, keys: keys("/n/b.flac", "b.flac") },
    ];
    let candidates = vec![
        Candidate { path: "/n/b.flac".to_owned(), keys: keys("/n/b.flac", "b.flac") },
        Candidate { path: "/x/a.flac".to_owned(), keys: keys("/x/a.flac", "a.flac") },
        Candidate { path: "/x/z.flac".to_owned(), keys: keys("/x/z.flac", "z.flac") },
    ];
    let m = match_candidates(&library, &candidates);
    assert_eq!(m.tracks, vec![2, 1]);
    assert_eq!(m.missing, vec!["/x/z.flac".to_owned()]);
    let missing: Vec<String> = (0..25).map(|i| format!("/{i}")).collect();
    let r = import_playlist_m3u(9, 2, &missing);
    assert_eq!((r.playlist_id, r.imported, r.missing), (9, 2, 25));
    assert_eq!(r.missing_paths.len(), 20);
    assert_eq!(canonical_path_key("/M/A", false), "/M/A");
    assert_eq!(canonical_path_key(r"C:\M\A", true), r"c:\m\a");
    assert_eq!(
        canonical_path_key(r"\\?\C:\M", true),
        canonical_path_key(r"c:\m", true)
    );
    assert_eq!(
        canonical_path_key(r"\\?\UNC\srv\x", true),
        canonical_path_key(r"\\srv\x", true)
    );
}

fn smart(name: &str) -> CustomSmartPlaylistInput {
    CustomSmartPlaylistInput {
        name: name.to_owned(),
        description: None,
        color_id: None,
        icon_id: None,
        rules: "{}".to_owned(),
    }
}

#[test]
fn rules_of_one_s_own_may_be_changed() {
    let d = create_custom_smart_playlist(&smart(" Mine ")).unwrap();
    assert_eq!((d.name.as_str(), d.color_id.as_str(), d.icon_id.as_str()), ("Mine", "violet", "sparkles"));
    assert_eq!(create_custom_smart_playlist(&smart(" ")), other("playlist name cannot be empty"));
    let row = |is_smart, rules| Some(SmartRow { is_smart, rules });
    let custom = || StoredRules::Custom("[1]".to_owned());
    let change = |row: Option<SmartRow>| update_custom_smart_playlist(3, &row, &smart("Mine"));
    assert_eq!(change(row(1, custom())).unwrap().rules, "{}");
    assert_eq!(change(None), other("playlist 3 not found"));
    assert_eq!(change(row(0, custom())), other("playlist is not a smart playlist"));
    let built_in = "playlist is a built-in smart playlist (Daily Mix), not a custom one";
    for rules in [StoredRules::BuiltIn, StoredRules::Missing, StoredRules::Invalid("x".to_owned())] {
        assert_eq!(change(row(1, rules)), other(built_in));
    }
    assert_eq!(regenerate_custom_smart_playlist(3, &row(1, custom())), Ok("[1]".to_owned()));
    assert_eq!(
        regenerate_custom_smart_playlist(3, &row(1, StoredRules::Missing)),
        other("smart_rules column is empty")
    );
    assert_eq!(
        regenerate_custom_smart_playlist(3, &row(1, StoredRules::Invalid("why".to_owned()))),
        other("invalid smart_rules JSON: why")
    );
    assert_eq!(regenerate_custom_smart_playlist(3, &None), other("playlist 3 not found"));
    assert_eq!(
        get_custom_smart_playlist_rules(3, &StoredRules::Missing),
        other("smart playlist 3 not found")
    );
    assert_eq!(get_custom_smart_playlist_rules(3, &StoredRules::BuiltIn), other(built_in));
    assert_eq!(get_custom_smart_playlist_rules(3, &custom()), Ok("[1]".to_owned()));
    assert!(is_custom_payload(&custom()));
    assert_eq!(parse_custom_rules(&custom()), Ok("[1]".to_owned()));
    assert_eq!(parse_custom_rules(&StoredRules::BuiltIn), other(built_in));
}

#[test]
fn a_preview_lists_the_first() {
    let ids: Vec<i64> = (0..250).collect();
    let p = preview_custom_smart_playlist(&ids);
    assert_eq!(p.total, 250);
    assert_eq!(p.track_ids, (0..200).collect::<Vec<i64>>());
    assert_eq!(preview_custom_smart_playlist(&vec![5]).track_ids, vec![5]);
}
