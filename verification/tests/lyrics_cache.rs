//! What is remembered of a track's lyrics.

use waveflow_commands::error::AppError;
use waveflow_commands::lyrics::{
    accepted_associated, answer, cache_external_lyrics, cache_lyrics_bundle, cache_lyrics_miss,
    cached_payload, external_lyrics_search, external_query, first_plugin_answer,
    import_lrc_file, lrclib_pick, lrclib_query, read_associated, read_cached, refetch_lyrics, track_not_found, try_plugin_lyrics,
    upsert_lyrics, AssociatedKind, AssociatedRow, CacheRead, ExternalLyricsResult, LrclibAnswer,
    LrclibPick, LyricsBundle, PluginAssociated, PluginDocument, PluginReply, RefetchPlan, SearchPlan, TrackMeta,
};
use waveflow_commands::lyrics_format::{
    ExternalLyricsFormat, LyricsFormat, LyricsSource, PluginLyricsFormat,
};
use waveflow_commands::lyrics_providers::{external_fallback_providers, Provider};
use waveflow_commands::lyrics_radio::{
    fetch_radio_lyrics, fetch_remote_lyrics, radio_lyrics_key, radio_song, read_radio_cached,
    remote_song, search_verdict, server_payload, RadioRow, SearchOutcome, ServerLyrics,
};
use waveflow_commands::lyrics_save::{
    export_lyrics_to_path, finish_save, read_prefer_lrclib, read_translation_lang, save_lyrics,
    set_lyrics_default_destination, set_lyrics_translation_lang, set_prefer_lrclib,
    supported_translation_langs, FileWrite, LyricsSaveFormat, SaveLyricsPayload,
};
use waveflow_commands::lyrics_sidecar::LyricsDestination;
use waveflow_commands::settings::{SettingWrite, ValueKind};

fn some(s: &str) -> Option<String> {
    Some(s.to_owned())
}

fn plugin_doc(content: &str, language: Option<&str>) -> PluginDocument {
    PluginDocument {
        content: content.to_owned(),
        format: PluginLyricsFormat::Lrc,
        language: language.map(|l| l.to_owned()),
    }
}

#[test]
fn replacing_the_primary_document_clears_its_companions() {
    let write = upsert_lyrics(
        "hash-a",
        "Typed by hand",
        &LyricsFormat::Plain,
        &LyricsSource::Manual,
        None,
        7,
    );
    assert_eq!(
        write.associated.len(),
        0,
        "a new primary document must not inherit the previous bundle's companions"
    );
    assert_eq!(write.row.file_hash, "hash-a");
    assert_eq!(write.row.content, "Typed by hand");
    assert_eq!(write.row.format, "plain");
    assert_eq!(write.row.source, "manual");
    assert_eq!(write.row.provider, None);
    assert_eq!(write.row.language, None);
    assert_eq!(write.row.fetched_at, 7);
}

#[test]
fn a_returned_bundle_matches_what_was_cached() {
    let bundle = LyricsBundle {
        primary: plugin_doc("[00:12.00]Original", Some("ja")),
        associated: vec![
            PluginAssociated {
                kind: AssociatedKind::Translation,
                document: plugin_doc("[00:12.00]Premiere", Some("fr")),
            },
            PluginAssociated {
                kind: AssociatedKind::Translation,
                document: plugin_doc("[00:12.00]Seconde", Some("fr")),
            },
            PluginAssociated {
                kind: AssociatedKind::Pronunciation,
                document: plugin_doc("[00:12.00]Romaji", None),
            },
        ],
    };

    let (write, payload) = cache_lyrics_bundle(1, "hash-d", &bundle, "apple-lyrics", 9)
        .expect("the primary document is valid LRC");

    assert_eq!(
        payload.associated.len(),
        2,
        "the duplicate slot must be dropped before the payload is built"
    );
    assert_eq!(
        payload.associated.len(),
        write.associated.len(),
        "the payload and the cache must agree on what was stored"
    );
    assert_eq!(
        payload.associated[0].content, "[00:12.00]Premiere",
        "the first document for a slot is the one kept"
    );
    assert_eq!(payload.provider.as_deref(), Some("plugin:apple-lyrics"));

    assert_eq!(write.row.language, some("ja"));
    let again = cached_payload(1, write.row, write.associated);
    assert_eq!(again.content, payload.content);
    assert_eq!(again.provider, payload.provider);
    // Read back, the companions are in the order of their kinds.
    let order: Vec<&str> = again.associated.iter().map(|a| a.content.as_str()).collect();
    assert_eq!(order, ["[00:12.00]Romaji", "[00:12.00]Premiere"]);
}

#[test]
fn companions_are_read_by_kind_and_language() {
    let row = |kind: &str, language: Option<&str>| AssociatedRow {
        kind: kind.to_owned(),
        language: language.map(str::to_owned),
        content: "x".to_owned(),
        format: "lrc".to_owned(),
    };
    let rows = vec![
        row("translation", Some("ja")),
        row("translation", Some("fr")),
        row("pronunciation", Some("ja")),
        row("translation", None),
        row("translation", Some("fr-CA")),
    ];
    let read = read_associated(rows);
    let order: Vec<(&str, Option<&str>)> =
        read.iter().map(|a| (a.kind.as_str(), a.language.as_deref())).collect();
    assert_eq!(
        order,
        [
            ("pronunciation", Some("ja")),
            ("translation", None),
            ("translation", Some("fr")),
            ("translation", Some("fr-CA")),
            ("translation", Some("ja")),
        ]
    );
}

#[test]
fn the_first_usable_plugin_answer_stands() {
    let reply = |plugin: &str, content: Option<&str>| PluginReply {
        plugin_id: plugin.to_owned(),
        bundle: content.map(|c| LyricsBundle { primary: plugin_doc(c, None), associated: Vec::new() }),
    };
    let mut replies = vec![reply("slow", None), reply("liar", Some("no stamps at all"))];
    assert_eq!(first_plugin_answer(1, "h", &replies, 9), None);
    replies.push(reply("good", Some("[00:12.00]Good")));
    let a = first_plugin_answer(1, "h", &replies, 9).unwrap();
    assert_eq!(a.reply, 2);
    assert_eq!((a.write.row.file_hash.as_str(), a.write.row.fetched_at), ("h", 9));
    assert_eq!(a.payload.content, "[00:12.00]Good");
    assert_eq!(a.payload.provider.as_deref(), Some("plugin:good"));
    replies.push(reply("late", Some("[00:12.00]Late")));
    assert_eq!(first_plugin_answer(1, "h", &replies, 9), Some(a));
}

#[test]
fn a_bundle_holds_one_document_per_kind_and_language() {
    let served = vec![
        PluginAssociated {
            kind: AssociatedKind::Translation,
            document: plugin_doc("[00:12.00]Companion", Some("fr")),
        },
        PluginAssociated {
            kind: AssociatedKind::Pronunciation,
            document: plugin_doc("[00:12.00]Companion", None),
        },
        PluginAssociated {
            kind: AssociatedKind::Pronunciation,
            document: plugin_doc("[00:12.00]Another", None),
        },
        PluginAssociated {
            kind: AssociatedKind::Translation,
            document: plugin_doc("[00:12.00]Companion", Some("ja")),
        },
    ];
    let kept = accepted_associated(&served);
    assert_eq!(kept.len(), 3);
    assert_eq!(kept[1].kind, "pronunciation");
    assert_eq!(kept[1].content, "[00:12.00]Companion");
}

#[test]
fn a_document_that_is_not_what_it_claims_is_dropped() {
    let mut bundle = LyricsBundle {
        primary: plugin_doc("[00:12.00]Original", None),
        associated: vec![PluginAssociated {
            kind: AssociatedKind::Translation,
            document: plugin_doc("no stamps at all", Some("fr")),
        }],
    };
    let (_, payload) = cache_lyrics_bundle(1, "h", &bundle, "p", 0).unwrap();
    assert!(payload.associated.is_empty());
    bundle.primary.content = "no stamps at all".to_owned();
    assert!(cache_lyrics_bundle(1, "h", &bundle, "p", 0).is_none());
}

#[test]
fn a_cached_credit_is_not_served() {
    assert_eq!(read_cached(&None), CacheRead::Missing);
    let row = |content: &str, source: LyricsSource| {
        Some(upsert_lyrics("h", content, &LyricsFormat::Plain, &source, None, 0).row)
    };
    let credit = "Provided to YouTube by Some Label\n\nSong · Artist\n\nAlbum";
    assert_eq!(read_cached(&row(credit, LyricsSource::Embedded)), CacheRead::Credit);
    assert_eq!(read_cached(&row("words", LyricsSource::Embedded)), CacheRead::Lyrics);
}

#[test]
fn companions_are_read_as_they_were_stored() {
    let rows = vec![AssociatedRow {
        kind: "translation".to_owned(),
        language: some("fr"),
        content: "x".to_owned(),
        format: "ttml".to_owned(),
    }];
    let read = read_associated(rows);
    assert_eq!(read[0].format, LyricsFormat::Ttml);
    assert_eq!(read[0].language, some("fr"));
}

#[test]
fn nothing_found_is_no_verdict_while_one_sits_out() {
    assert_eq!(search_verdict(SearchOutcome::Miss, false), SearchOutcome::Miss);
    assert_eq!(search_verdict(SearchOutcome::Miss, true), SearchOutcome::Unavailable);
    let outcome = SearchOutcome::Unavailable;
    assert_eq!(search_verdict(outcome, true), SearchOutcome::Unavailable);
}

#[test]
fn a_search_names_the_first_artist_only() {
    assert_eq!(external_query("Song", &some("One; Two")), "Song One");
    assert_eq!(external_query("Song", &some("  ")), "Song");
    assert_eq!(external_query("Song", &None), "Song");
}

#[test]
fn a_search_is_planned_or_left_alone() {
    let none: Option<String> = None;
    let ask = |providers: Vec<Provider>, lang: &Option<String>, offline, musixmatch| {
        external_lyrics_search("Song", &some("One"), &providers, lang, offline, musixmatch)
    };
    assert_eq!(ask(external_fallback_providers(), &none, true, true), SearchPlan::Unavailable);
    assert_eq!(ask(vec![Provider::Musixmatch], &none, false, false), SearchPlan::Unavailable);
    assert_eq!(
        ask(vec![Provider::Musixmatch], &some("fr"), false, true),
        SearchPlan::Ask {
            query: "Song One".to_owned(),
            providers: vec![Provider::Musixmatch],
            lang: some("fr"),
        }
    );
    assert_eq!(
        ask(vec![Provider::Lrclib], &some("fr"), false, true),
        SearchPlan::Ask {
            query: "Song One".to_owned(),
            providers: vec![Provider::Lrclib],
            lang: None,
        }
    );
}

#[test]
fn answers_are_stored_under_their_provider() {
    let result = ExternalLyricsResult {
        content: "[00:01.00]x".to_owned(),
        format: ExternalLyricsFormat::Lrc,
        provider: Provider::NetEase,
    };
    let (write, payload) = cache_external_lyrics(4, "h", result, 5);
    assert_eq!(write.row.provider, some(Provider::NetEase.as_str()));
    assert_eq!(payload.provider, some(Provider::NetEase.as_str()));
    assert_eq!(payload.format, LyricsFormat::Lrc);
    assert_eq!(payload.source, LyricsSource::Api);
    assert_eq!(cached_payload(4, write.row, write.associated), payload);

    let (_, none) = cache_lyrics_miss(4, "h", None, 5);
    assert_eq!(none.content, "");
    assert_eq!(none.provider, None);
    let (_, words) = answer(4, "h", "w".to_owned(), LyricsFormat::Plain, Some(Provider::Lrclib), 5);
    assert_eq!(words.provider, some("lrclib"));
}

#[test]
fn lrclib_is_asked_with_what_is_known() {
    let mut meta = TrackMeta {
        file_path: "/m/a.flac".to_owned(),
        file_hash: "h".to_owned(),
        title: "Song".to_owned(),
        artist_name: some("One; Two"),
        album_title: some("Album"),
        duration_ms: 61_001,
    };
    let q = lrclib_query(&meta).unwrap();
    assert_eq!(q.artist, "One");
    assert_eq!(q.title, "Song");
    assert_eq!(q.album, some("Album"));
    assert_eq!(q.duration_seconds, 62);
    meta.duration_ms = -5;
    assert_eq!(lrclib_query(&meta).unwrap().duration_seconds, 0);
    meta.artist_name = None;
    assert!(lrclib_query(&meta).is_none());
}

#[test]
fn lrclib_answers_in_order_of_worth() {
    let served = |instrumental, synced: Option<&str>, plain: Option<&str>| {
        lrclib_pick(LrclibAnswer {
            instrumental,
            synced_lyrics: synced.map(|s| s.to_owned()),
            plain_lyrics: plain.map(|s| s.to_owned()),
        })
    };
    assert_eq!(served(Some(true), Some("x"), None), LrclibPick::Instrumental);
    assert_eq!(
        served(Some(false), Some("s"), Some("p")),
        LrclibPick::Lyrics("s".to_owned(), LyricsFormat::Lrc)
    );
    assert_eq!(
        served(None, Some("  "), Some("p")),
        LrclibPick::Lyrics("p".to_owned(), LyricsFormat::Plain)
    );
    assert_eq!(served(None, None, Some(" ")), LrclibPick::Empty);
}

#[test]
fn asking_again_is_addressed() {
    assert_eq!(refetch_lyrics(&None, false), Ok(RefetchPlan::Waterfall));
    assert_eq!(refetch_lyrics(&None, true), Ok(RefetchPlan::Waterfall));
    assert_eq!(
        refetch_lyrics(&some("plugin:apple-lyrics"), false),
        Ok(RefetchPlan::Plugin("apple-lyrics".to_owned()))
    );
    assert_eq!(refetch_lyrics(&some("plugin:apple-lyrics"), true), Ok(RefetchPlan::Nobody));
    assert_eq!(
        refetch_lyrics(&some("genius"), false),
        Ok(RefetchPlan::Provider(Provider::Genius))
    );
    assert_eq!(refetch_lyrics(&some("genius"), true), Ok(RefetchPlan::Nobody));
    assert_eq!(
        refetch_lyrics(&some("nobody"), true),
        Err(AppError::Other("unknown lyrics provider: nobody".to_owned()))
    );
    let ids = vec!["a".to_owned(), "b".to_owned()];
    assert_eq!(try_plugin_lyrics(ids, &some("b")), vec!["b".to_owned()]);
    assert_eq!(try_plugin_lyrics(vec!["a".to_owned()], &None), vec!["a".to_owned()]);
}

#[test]
fn an_imported_file_is_stored_trimmed() {
    let (write, payload) = import_lrc_file(3, "h", " [00:01.00]x \n", 1).unwrap();
    assert_eq!(write.row.content, "[00:01.00]x");
    assert_eq!(payload.format, LyricsFormat::Lrc);
    assert_eq!(payload.source, LyricsSource::LrcFile);
    assert_eq!(
        import_lrc_file(3, "h", " \n", 1),
        Err(AppError::Other("imported lyrics file is empty".to_owned()))
    );
    assert_eq!(track_not_found(3), AppError::Other("track 3 not found".to_owned()));
}

#[test]
fn a_song_is_known_whatever_its_case() {
    assert_eq!(radio_lyrics_key(" One ", "Song"), radio_lyrics_key("one", " SONG "));
    assert_ne!(radio_lyrics_key("a", "bc"), radio_lyrics_key("ab", "c"));
    assert!(radio_song(" ", "Song").is_none());
    let song = radio_song(" One ", " Song ").unwrap();
    assert_eq!(song.artist, "One");
    assert_eq!(song.title, "Song");
    assert_eq!(song.key, radio_lyrics_key("One", "Song"));
}

#[test]
fn a_song_on_the_radio_is_remembered() {
    let found = || ExternalLyricsResult {
        content: "[00:01.00]x".to_owned(),
        format: ExternalLyricsFormat::Lrc,
        provider: Provider::Lrclib,
    };
    let (row, payload) = fetch_radio_lyrics(-1, SearchOutcome::Found(found()));
    let row = row.unwrap();
    let payload = payload.unwrap();
    assert_eq!(read_radio_cached(-1, row), Some(payload));
    let (row, payload) = fetch_radio_lyrics(-1, SearchOutcome::Miss);
    assert_eq!(row.unwrap().content, "");
    assert_eq!(payload, None);
    assert_eq!(fetch_radio_lyrics(-1, SearchOutcome::Unavailable), (None, None));
    let blank = RadioRow {
        content: String::new(),
        format: "plain".to_owned(),
        source: "api".to_owned(),
        provider: None,
    };
    assert_eq!(read_radio_cached(-1, blank), None);
    assert!(fetch_remote_lyrics(-1, SearchOutcome::Found(found())).is_some());
    assert_eq!(fetch_remote_lyrics(-1, SearchOutcome::Miss), None);
}

#[test]
fn a_server_says_whether_its_lyrics_are_timed() {
    let p = server_payload(5, ServerLyrics { content: "[00:01.00]x".to_owned(), synced: true });
    assert_eq!(p.format, LyricsFormat::Lrc);
    let p = server_payload(5, ServerLyrics { content: "x".to_owned(), synced: false });
    assert_eq!(p.format, LyricsFormat::Plain);
    assert_eq!(remote_song("One", "Song", true), None);
    assert!(remote_song("One", "Song", false).is_some());
}

#[test]
fn an_edit_goes_where_it_is_sent() {
    let edit = |content: &str, format, destination| SaveLyricsPayload {
        content: content.to_owned(),
        format,
        destination,
    };
    let tag = edit("[00:01.00]x", LyricsSaveFormat::Lrc, LyricsDestination::Tag);
    let plan = save_lyrics(3, &tag, 3);
    assert_eq!(plan.write, FileWrite::Tag { pause: true });
    assert_eq!(save_lyrics(3, &tag, 4).write, FileWrite::Tag { pause: false });
    let saved = finish_save(3, "h", plan, some("new"), 8);
    let rehash = saved.rehash.unwrap();
    assert_eq!((rehash.new_hash.as_str(), rehash.forgotten.as_str()), ("new", "h"));
    assert_eq!(saved.told.tag_write_skipped, None);
    assert_eq!(saved.write.row.file_hash, "new");
    assert_eq!(saved.write.row.source, "manual");
    let read = cached_payload(3, saved.write.row, saved.write.associated);
    assert_eq!(read.content, saved.told.content);
    let kept = finish_save(3, "h", save_lyrics(3, &tag, 4), None, 8);
    assert!(kept.rehash.is_none());
    assert_eq!(kept.write.row.file_hash, "h");
    assert_eq!(kept.told.tag_write_skipped, Some(true));
    let side = edit("x", LyricsSaveFormat::Plain, LyricsDestination::Sidecar);
    assert_eq!(save_lyrics(3, &side, 3).write, FileWrite::Sidecar { plain: true });
    let ttml = edit("<tt/>", LyricsSaveFormat::Ttml, LyricsDestination::Sidecar);
    assert_eq!(save_lyrics(3, &ttml, 3).write, FileWrite::SidecarSkipped);
    let db = edit("x", LyricsSaveFormat::Plain, LyricsDestination::DbOnly);
    assert_eq!(save_lyrics(3, &db, 3).write, FileWrite::Nothing);
}

#[test]
fn preferences_of_lyrics_read_back() {
    for lang in supported_translation_langs() {
        let (write, kept) = set_lyrics_translation_lang(&some(lang)).unwrap();
        assert_eq!(kept, some(lang));
        match write {
            SettingWrite::Put { key, value, .. } => {
                assert_eq!(key, "lyrics.translation_lang");
                assert_eq!(read_translation_lang(Some(value)), some(lang));
            }
            other => panic!("{other:?}"),
        }
    }
    assert!(set_lyrics_translation_lang(&some("xx")).is_err());
    assert!(matches!(
        set_lyrics_translation_lang(&None),
        Ok((SettingWrite::Remove { .. }, None))
    ));
    match set_prefer_lrclib(true) {
        SettingWrite::Put { value, kind, .. } => {
            assert_eq!(kind, ValueKind::Bool);
            assert!(read_prefer_lrclib(&Some(value)));
        }
        other => panic!("{other:?}"),
    }
    assert_eq!(
        set_prefer_lrclib(false),
        SettingWrite::Remove { key: "lyrics.prefer_lrclib".to_owned() }
    );
    assert!(read_prefer_lrclib(&some("1")));
    assert!(!read_prefer_lrclib(&None));
    let (_, kept) = set_lyrics_default_destination("sidecar").unwrap();
    assert_eq!(kept, LyricsDestination::Sidecar);
    assert!(set_lyrics_default_destination("nowhere").is_err());
}

#[test]
fn an_export_needs_a_place() {
    assert_eq!(export_lyrics_to_path("/m/a.lrc", &Some(("/m".to_owned(), true))), Ok(()));
    assert!(export_lyrics_to_path("/m/a.lrc", &Some(("/m".to_owned(), false))).is_err());
    assert!(export_lyrics_to_path(" ", &None).is_err());
}
