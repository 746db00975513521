//! A lookup of lyrics from start to end.

use waveflow_commands::error::AppError;
use waveflow_commands::lyrics::{local_payload, ExternalLyricsResult, LrclibPick};
use waveflow_commands::lyrics_format::{ExternalLyricsFormat, LyricsFormat, LyricsSource};
use waveflow_commands::lyrics_prefetch::{
    cancel_lyrics_prefetch, end_prefetch, prefetch_library_lyrics, Prefetch, PrefetchFlags, Step,
    TrackResult,
};
use waveflow_commands::lyrics_providers::Provider;
use waveflow_commands::lyrics_radio::SearchOutcome;
use waveflow_commands::lyrics_replies::{
    chain_replies, lrclib_replies, musixmatch_replies, named_answer, payload_replies,
};
use waveflow_commands::lyrics_waterfall::{Ask, Reply, Tier, Verdict, Waterfall};

/// Walk a lookup with these replies; what was asked, and how it ended.
fn walk(reply: impl Fn(Ask) -> Reply, offline: bool) -> (Vec<Ask>, Verdict) {
    let mut w = Waterfall::begin();
    let mut asked = Vec::new();
    while let Some(ask) = w.ask {
        asked.push(ask);
        w = w.next(reply(ask), offline);
        assert!(asked.len() < 20);
    }
    (asked, w.verdict)
}

fn usual(ask: Ask) -> Reply {
    match ask {
        Ask::Track => Reply::Track { artist: true },
        Ask::Preference => Reply::Prefer { network: false },
        Ask::Store(_) | Ask::StoreHeld => Reply::Stored,
        _ => Reply::Nothing,
    }
}

#[test]
fn what_is_cached_is_not_asked_for() {
    let (asked, verdict) = walk(
        |a| if a == Ask::Cache { Reply::Found { synced: false } } else { usual(a) },
        false,
    );
    assert_eq!(asked, vec![Ask::Cache]);
    assert_eq!(verdict, Verdict::Answer(Tier::Cache));
}

#[test]
fn nobody_having_anything_is_remembered() {
    let (asked, verdict) = walk(usual, false);
    assert_eq!(
        asked,
        vec![
            Ask::Cache,
            Ask::Track,
            Ask::Preference,
            Ask::Local,
            Ask::Plugins,
            Ask::Musixmatch,
            Ask::Lrclib,
            Ask::Chain,
            Ask::Store(Tier::Miss),
        ]
    );
    assert_eq!(verdict, Verdict::Answer(Tier::Miss));
}

#[test]
fn a_chain_that_was_not_heard_is_not_remembered() {
    for reply in [Reply::Unavailable, Reply::Failed] {
        let (_, verdict) = walk(|a| if a == Ask::Chain { reply } else { usual(a) }, false);
        assert_eq!(verdict, Verdict::Nothing);
    }
}

#[test]
fn offline_only_this_machine_is_asked() {
    let (asked, verdict) = walk(usual, true);
    assert_eq!(asked, vec![Ask::Cache, Ask::Track, Ask::Preference, Ask::Local]);
    assert_eq!(verdict, Verdict::Nothing);
}

#[test]
fn a_plugin_s_untimed_answer_gives_way_to_timed_lyrics_only() {
    let held = |a: Ask, lrclib: Reply| match a {
        Ask::Plugins => Reply::Found { synced: false },
        Ask::Lrclib => lrclib,
        _ => usual(a),
    };
    let (_, verdict) = walk(|a| held(a, Reply::Found { synced: true }), false);
    assert_eq!(verdict, Verdict::Answer(Tier::Lrclib));
    for poor in [Reply::Found { synced: false }, Reply::Failed, Reply::Instrumental] {
        let (asked, verdict) = walk(|a| held(a, poor), false);
        assert_eq!(verdict, Verdict::Answer(Tier::Plugin));
        assert_eq!(asked.last(), Some(&Ask::StoreHeld));
    }
}

#[test]
fn the_network_first_still_shows_own_lyrics() {
    let network = |a: Ask, lrclib: Reply| match a {
        Ask::Preference => Reply::Prefer { network: true },
        Ask::Local => Reply::Found { synced: false },
        Ask::Lrclib => lrclib,
        _ => usual(a),
    };
    let (_, verdict) = walk(|a| network(a, Reply::Instrumental), false);
    assert_eq!(verdict, Verdict::Answer(Tier::Local));
    let (_, verdict) = walk(|a| network(a, Reply::Found { synced: false }), false);
    assert_eq!(verdict, Verdict::Answer(Tier::Lrclib));
}

#[test]
fn a_prefetch_adds_up() {
    let mut p = Prefetch::new(3);
    assert_eq!(p.ends(false), None);
    p.record(TrackResult::Hit);
    p.record(TrackResult::Miss);
    assert_eq!(p.ends(false), None);
    let s = p.ends(true).unwrap();
    assert_eq!((s.processed, s.hits, s.misses, s.failed, s.cancelled), (2, 1, 1, 0, true));
    p.record(TrackResult::Failed);
    let s = p.ends(false).unwrap();
    assert_eq!((s.processed, s.hits, s.misses, s.failed, s.cancelled), (3, 1, 1, 1, false));
    // Told to stop once everything is done: nothing was cancelled.
    assert_eq!(p.ends(true), Some(s));
    let f = p.progress(Some("Song".to_owned()));
    assert_eq!(f.total, 3);
    assert_eq!(f.current_title, Some("Song".to_owned()));
}

#[test]
fn a_prefetched_track_walks_its_steps() {
    let walk = |reply: &dyn Fn(Step) -> Reply, artist, musixmatch| {
        let mut s = Step::Embedded;
        let mut steps = vec![s];
        while !matches!(s, Step::Done { .. }) {
            s = s.next(reply(s), artist, musixmatch);
            steps.push(s);
        }
        steps
    };
    let nothing = |_: Step| Reply::Nothing;
    assert_eq!(
        walk(&nothing, true, true),
        vec![
            Step::Embedded,
            Step::Beside,
            Step::Musixmatch,
            Step::Rest,
            Step::Lrclib,
            Step::Chain,
            Step::StoreMiss,
            Step::Done { result: TrackResult::Miss, rest: true },
        ]
    );
    assert_eq!(
        walk(&nothing, false, false).last(),
        Some(&Step::Done { result: TrackResult::Miss, rest: false })
    );
    let unheard = |s: Step| if s == Step::Chain { Reply::Unavailable } else { Reply::Nothing };
    assert_eq!(
        walk(&unheard, true, false).last(),
        Some(&Step::Done { result: TrackResult::Failed, rest: true })
    );
}

#[test]
fn one_prefetch_runs_at_a_time() {
    let mut flags = PrefetchFlags::new();
    assert!(!cancel_lyrics_prefetch(&mut flags));
    assert_eq!(
        prefetch_library_lyrics(&mut flags, true),
        Err(AppError::Other("offline mode is enabled".to_owned()))
    );
    assert_eq!(prefetch_library_lyrics(&mut flags, false), Ok(()));
    assert_eq!(
        prefetch_library_lyrics(&mut flags, false),
        Err(AppError::Other("lyrics prefetch already running".to_owned()))
    );
    assert!(cancel_lyrics_prefetch(&mut flags));
    assert!(flags.cancel);
    end_prefetch(&mut flags);
    assert_eq!(flags, PrefetchFlags::new());
}

#[test]
fn replies_say_what_came_back() {
    let failed = || AppError::Other("down".to_owned());
    let found = |content: &str, format| {
        Ok(SearchOutcome::Found(ExternalLyricsResult {
            content: content.to_owned(),
            format,
            provider: Provider::Musixmatch,
        }))
    };
    assert_eq!(
        musixmatch_replies(&found("[00:01.00]<00:01.00>x", ExternalLyricsFormat::EnhancedLrc)),
        Reply::Found { synced: true }
    );
    assert_eq!(
        musixmatch_replies(&found("[00:01.00]x", ExternalLyricsFormat::Lrc)),
        Reply::Nothing
    );
    assert_eq!(musixmatch_replies(&Err(failed())), Reply::Failed);
    assert_eq!(
        chain_replies(&found("[00:01.00]x", ExternalLyricsFormat::Lrc)),
        Reply::Found { synced: true }
    );
    assert_eq!(
        chain_replies(&found("x", ExternalLyricsFormat::Plain)),
        Reply::Found { synced: false }
    );
    assert_eq!(chain_replies(&Ok(SearchOutcome::Miss)), Reply::Nothing);
    assert_eq!(chain_replies(&Ok(SearchOutcome::Unavailable)), Reply::Unavailable);
    assert_eq!(lrclib_replies(&Ok(None)), Reply::Nothing);
    assert_eq!(lrclib_replies(&Ok(Some(LrclibPick::Empty))), Reply::Nothing);
    assert_eq!(lrclib_replies(&Ok(Some(LrclibPick::Instrumental))), Reply::Instrumental);
    assert_eq!(
        lrclib_replies(&Ok(Some(LrclibPick::Lyrics("x".to_owned(), LyricsFormat::Lrc)))),
        Reply::Found { synced: false }
    );
    let own = local_payload(1, "[00:01.00]x".to_owned(), LyricsSource::Embedded);
    assert_eq!(payload_replies(&Ok(Some(own))), Reply::Found { synced: true });
    assert_eq!(payload_replies(&Err(failed())), Reply::Failed);
}

#[test]
fn a_named_provider_is_blamed_only_where_it_was_asked() {
    assert!(named_answer(3, "h", Provider::Genius, SearchOutcome::Unavailable, 1).is_none());
    let (write, told) = named_answer(3, "h", Provider::Genius, SearchOutcome::Miss, 1).unwrap();
    assert_eq!(write.row.content, "");
    assert_eq!(write.row.provider.as_deref(), Some("genius"));
    assert_eq!(told.provider.as_deref(), Some("genius"));
    let found = SearchOutcome::Found(ExternalLyricsResult {
        content: "words".to_owned(),
        format: ExternalLyricsFormat::Plain,
        provider: Provider::Genius,
    });
    let (write, told) = named_answer(3, "h", Provider::Genius, found, 1).unwrap();
    assert_eq!(write.row.file_hash, "h");
    assert_eq!(write.row.content, "words");
    assert_eq!(told.format, LyricsFormat::Plain);
}
