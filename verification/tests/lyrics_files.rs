//! Lyrics beside the music: which file is read, and where one is written.

use waveflow_commands::lyrics_format::{LyricsFormat, LyricsSource};
use waveflow_commands::lyrics_sidecar::{
    export_fetched_sidecar, exported_sidecar, is_lyrics_dir, read_default_destination,
    read_stem_match_in_dir, sidecar_lyrics, sidecar_of_folders, sidecar_path, DirEntry,
    LyricsDestination,
};

/// A folder: the name of each entry, and what it holds where it is a file.
struct Folder<'a> {
    entries: Vec<(&'a str, Option<&'a str>)>,
    folders: Vec<(&'a str, Folder<'a>)>,
}

fn split_name(name: &str) -> (Option<String>, Option<String>) {
    match name.rfind('.') {
        Some(k) if k > 0 => (Some(name[..k].to_owned()), Some(name[k + 1..].to_owned())),
        _ => (Some(name.to_owned()), None),
    }
}

fn in_folder(folder: &Folder, stem: &str) -> Option<String> {
    let entries: Vec<DirEntry> = folder
        .entries
        .iter()
        .map(|(name, content)| {
            let (stem, extension) = split_name(name);
            DirEntry { is_file: content.is_some(), is_dir: content.is_none(), stem, extension }
        })
        .collect();
    let found = read_stem_match_in_dir(&entries, stem);
    let read = |at: Option<usize>| at.and_then(|i| folder.entries[i].1).map(|s| s.to_owned());
    sidecar_lyrics(read(found.lrc), read(found.txt))
}

fn read_sidecar_lyrics(folder: &Folder, audio: &str) -> Option<String> {
    let stem = split_name(audio).0.unwrap();
    let below = folder
        .folders
        .iter()
        .filter(|(name, _)| is_lyrics_dir(name))
        .map(|(_, inner)| in_folder(inner, &stem))
        .collect();
    sidecar_of_folders(in_folder(folder, &stem), below)
}

fn flat<'a>(entries: Vec<(&'a str, Option<&'a str>)>) -> Folder<'a> {
    Folder { entries, folders: Vec::new() }
}

#[test]
fn sidecar_finds_same_folder_lrc() {
    let dir = flat(vec![
        ("01 Track.mp3", Some("fake audio")),
        ("01 Track.lrc", Some("[00:01.00]Hello world")),
    ]);
    let content = read_sidecar_lyrics(&dir, "01 Track.mp3").expect("sidecar should be found");
    assert!(content.contains("Hello world"));
}

#[test]
fn sidecar_prefers_lrc_over_txt_in_same_folder() {
    let dir = flat(vec![
        ("Song.flac", Some("")),
        ("Song.txt", Some("plain content")),
        ("Song.lrc", Some("[00:01.00]synced")),
    ]);
    let content = read_sidecar_lyrics(&dir, "Song.flac").unwrap();
    assert!(content.contains("synced"), "got: {content}");
    assert!(!content.contains("plain content"));
}

#[test]
fn sidecar_falls_back_to_txt() {
    let dir = flat(vec![("Song.flac", Some("")), ("Song.txt", Some("plain content"))]);
    let content = read_sidecar_lyrics(&dir, "Song.flac").unwrap();
    assert_eq!(content, "plain content");
}

#[test]
fn sidecar_finds_lyrics_subfolder() {
    let sub = flat(vec![("Track.lrc", Some("[00:00.00]from subfolder"))]);
    let dir = Folder { entries: vec![("Track.mp3", Some(""))], folders: vec![("Lyrics", sub)] };
    let content = read_sidecar_lyrics(&dir, "Track.mp3").unwrap();
    assert!(content.contains("from subfolder"));
}

#[test]
fn sidecar_subfolder_case_insensitive() {
    let sub = flat(vec![("Track.lrc", Some("[00:00.00]lower"))]);
    let dir = Folder { entries: vec![("Track.mp3", Some(""))], folders: vec![("lyrics", sub)] };
    let content = read_sidecar_lyrics(&dir, "Track.mp3").unwrap();
    assert!(content.contains("lower"));
}

#[test]
fn sidecar_stem_match_case_insensitive() {
    let dir = flat(vec![("Song.MP3", Some("")), ("song.LRC", Some("[00:00.00]ok"))]);
    let content = read_sidecar_lyrics(&dir, "Song.MP3").unwrap();
    assert!(content.contains("ok"));
}

#[test]
fn sidecar_same_folder_beats_lyrics_subfolder() {
    let sub = flat(vec![("Track.lrc", Some("secondary"))]);
    let dir = Folder {
        entries: vec![("Track.mp3", Some("")), ("Track.lrc", Some("primary"))],
        folders: vec![("Lyrics", sub)],
    };
    let content = read_sidecar_lyrics(&dir, "Track.mp3").unwrap();
    assert_eq!(content, "primary");
}

#[test]
fn sidecar_returns_none_when_missing() {
    let dir = flat(vec![("Lonely.mp3", Some(""))]);
    assert!(read_sidecar_lyrics(&dir, "Lonely.mp3").is_none());
}

#[test]
fn sidecar_empty_lrc_falls_back_to_txt() {
    let dir = flat(vec![
        ("Song.mp3", Some("")),
        ("Song.lrc", Some("   \n  \n")),
        ("Song.txt", Some("plain backup")),
    ]);
    let content = read_sidecar_lyrics(&dir, "Song.mp3").expect("should fall back to txt");
    assert_eq!(content, "plain backup");
}

#[test]
fn sidecar_skips_directory_named_like_a_sidecar() {
    let dir = flat(vec![
        ("Song.mp3", Some("")),
        ("Song.lrc", None),
        ("Song.txt", Some("fallback ok")),
    ]);
    let content = read_sidecar_lyrics(&dir, "Song.mp3").expect("should fall back to txt");
    assert_eq!(content, "fallback ok");
}

#[test]
fn sidecar_returns_none_for_empty_file() {
    let dir = flat(vec![("Song.mp3", Some("")), ("Song.lrc", Some("   \n  \n"))]);
    assert!(read_sidecar_lyrics(&dir, "Song.mp3").is_none());
}

/// Where fetched lyrics are written beside `Song.flac`, among these entries.
fn export(
    destination: &str,
    source: LyricsSource,
    content: &str,
    format: LyricsFormat,
    entries: Vec<(&str, Option<&str>)>,
) -> Option<String> {
    let destination = read_default_destination(&Some(destination.to_owned()));
    if !export_fetched_sidecar(source, content, format, Some(destination)) {
        return None;
    }
    let dir = flat(entries);
    let present = read_sidecar_lyrics(&dir, "Song.flac");
    let stem = Some("Song".to_owned());
    let names = dir.entries.iter().map(|(name, _)| (*name).to_owned()).collect();
    exported_sidecar(&stem, &Some("/music".to_owned()), format, &present, &names).map(|p| p.name)
}

#[test]
fn fetched_lyrics_land_next_to_the_music() {
    let written = export(
        "sidecar",
        LyricsSource::Api,
        "[00:12.00]Hello",
        LyricsFormat::Lrc,
        vec![("Song.flac", Some("audio"))],
    );
    assert_eq!(written, Some("Song.lrc".to_owned()));
}

#[test]
fn a_fetch_never_rewrites_the_audio_file() {
    let written = export(
        "tag",
        LyricsSource::Api,
        "[00:12.00]Hello",
        LyricsFormat::Lrc,
        vec![("Song.flac", Some("audio"))],
    );
    assert_eq!(written, None);
}

#[test]
fn an_empty_sidecar_is_still_someone_else_s_file() {
    let written = export(
        "sidecar",
        LyricsSource::Api,
        "[00:12.00]Theirs",
        LyricsFormat::Lrc,
        vec![("Song.flac", Some("audio")), ("Song.lrc", Some(""))],
    );
    assert_eq!(written, None);
}

#[test]
fn a_sidecar_spelled_differently_still_counts() {
    let written = export(
        "sidecar",
        LyricsSource::Api,
        "[00:12.00]Theirs",
        LyricsFormat::Lrc,
        vec![("Song.flac", Some("audio")), ("song.LRC", Some("[00:01.00]Mine"))],
    );
    assert_eq!(written, None);
}

#[test]
fn an_existing_sidecar_is_left_alone() {
    let written = export(
        "sidecar",
        LyricsSource::Api,
        "[00:12.00]Theirs",
        LyricsFormat::Lrc,
        vec![("Song.flac", Some("audio")), ("Song.lrc", Some("[00:01.00]Mine"))],
    );
    assert_eq!(written, None);
}

#[test]
fn lyrics_that_came_off_the_disk_are_not_written_back() {
    let written = export(
        "sidecar",
        LyricsSource::Embedded,
        "Hello",
        LyricsFormat::Plain,
        vec![("Song.flac", Some("audio"))],
    );
    assert_eq!(written, None);
}

#[test]
fn an_instrumental_verdict_writes_no_file() {
    let written = export(
        "sidecar",
        LyricsSource::Api,
        "",
        LyricsFormat::Plain,
        vec![("Song.flac", Some("audio"))],
    );
    assert_eq!(written, None);
}

#[test]
fn a_path_needs_a_name_and_a_place() {
    let some = |s: &str| Some(s.to_owned());
    let path = sidecar_path(&some("Song"), &some("/music"), true).unwrap();
    assert_eq!(path.directory, "/music");
    assert_eq!(path.name, "Song.txt");
    assert_eq!(sidecar_path(&some("Song"), &some("/music"), false).unwrap().name, "Song.lrc");
    assert!(sidecar_path(&None, &some("/music"), true).is_none());
    assert!(sidecar_path(&some("Song"), &None, true).is_none());
}

#[test]
fn destinations_are_known_by_name() {
    for d in [LyricsDestination::Tag, LyricsDestination::Sidecar, LyricsDestination::DbOnly] {
        assert_eq!(LyricsDestination::parse(d.as_str()), Some(d));
        assert_eq!(read_default_destination(&Some(d.as_str().to_owned())), d);
    }
    assert_eq!(LyricsDestination::parse("elsewhere"), None);
    assert_eq!(read_default_destination(&None), LyricsDestination::Tag);
}
