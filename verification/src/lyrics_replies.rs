//! What a source's answer tells a lookup that is under way.

use vstd::prelude::*;

use crate::error::AppError;
use crate::lyrics;
use crate::lyrics::{
    cache_external_lyrics, cache_lyrics_miss, CacheWrite, LrclibPick, LyricsPayload,
};
use crate::lyrics_format;
use crate::lyrics_format::{external_format_to_app, ExternalLyricsFormat};
use crate::lyrics_providers;
use crate::lyrics_providers::Provider;
use crate::lyrics_radio;
use crate::lyrics_radio::SearchOutcome;
use crate::lyrics_sync;
use crate::lyrics_sync::lyrics_are_synced;
use crate::lyrics_waterfall;
use crate::lyrics_waterfall::Reply;

verus! {

/// What the local sources or a plugin tell: whether they have lyrics, and whether
/// these can be followed.
pub open spec fn payload_reply(answer: Result<Option<LyricsPayload>, AppError>) -> Reply {
    match answer {
        Err(_) => Reply::Failed,
        Ok(None) => Reply::Nothing,
        Ok(Some(p)) => Reply::Found { synced: lyrics_sync::synced(p.format, p.content@) },
    }
}

/// What the cache, the local sources or a plugin tell.
pub fn payload_replies(answer: &Result<Option<LyricsPayload>, AppError>) -> (r: Reply)
    ensures
        r == payload_reply(*answer),
{
    match answer {
        Err(_) => Reply::Failed,
        Ok(None) => Reply::Nothing,
        Ok(Some(p)) => Reply::Found { synced: lyrics_are_synced(&p.format, p.content.as_str()) },
    }
}

/// What Musixmatch tells: only words that are timed one by one count, and whatever
/// else comes back is as good as nothing.
pub open spec fn musixmatch_reply(outcome: Result<SearchOutcome, AppError>) -> Reply {
    match outcome {
        Ok(SearchOutcome::Found(found)) => if found.format == ExternalLyricsFormat::EnhancedLrc {
            Reply::Found {
                synced: lyrics_sync::synced(
                    lyrics_format::LyricsFormat::EnhancedLrc,
                    found.content@,
                ),
            }
        } else {
            Reply::Nothing
        },
        Ok(_) => Reply::Nothing,
        Err(_) => Reply::Failed,
    }
}

/// What Musixmatch tells.
pub fn musixmatch_replies(outcome: &Result<SearchOutcome, AppError>) -> (r: Reply)
    ensures
        r == musixmatch_reply(*outcome),
{
    match outcome {
        Ok(SearchOutcome::Found(found)) => match found.format {
            ExternalLyricsFormat::EnhancedLrc => Reply::Found {
                synced: lyrics_are_synced(
                    &external_format_to_app(found.format),
                    found.content.as_str(),
                ),
            },
            _ => Reply::Nothing,
        },
        Ok(_) => Reply::Nothing,
        Err(_) => Reply::Failed,
    }
}

/// What LRCLIB tells, by what its answer came to. A track that it does not know has
/// no answer.
pub open spec fn lrclib_reply(answer: Result<Option<LrclibPick>, AppError>) -> Reply {
    match answer {
        Err(_) => Reply::Failed,
        Ok(None) => Reply::Nothing,
        Ok(Some(LrclibPick::Instrumental)) => Reply::Instrumental,
        Ok(Some(LrclibPick::Lyrics(content, format))) => Reply::Found {
            synced: lyrics_sync::synced(format, content@),
        },
        Ok(Some(LrclibPick::Empty)) => Reply::Nothing,
    }
}

/// What LRCLIB tells.
pub fn lrclib_replies(answer: &Result<Option<LrclibPick>, AppError>) -> (r: Reply)
    ensures
        r == lrclib_reply(*answer),
{
    match answer {
        Err(_) => Reply::Failed,
        Ok(None) => Reply::Nothing,
        Ok(Some(LrclibPick::Instrumental)) => Reply::Instrumental,
        Ok(Some(LrclibPick::Lyrics(content, format))) => Reply::Found {
            synced: lyrics_are_synced(format, content.as_str()),
        },
        Ok(Some(LrclibPick::Empty)) => Reply::Nothing,
    }
}

/// What the chain of the other providers tells: that none of them has lyrics only
/// where they were asked.
pub open spec fn chain_reply(outcome: Result<SearchOutcome, AppError>) -> Reply {
    match outcome {
        Err(_) => Reply::Failed,
        Ok(SearchOutcome::Found(found)) => Reply::Found {
            synced: lyrics_sync::synced(
                lyrics_format::external_as_app(found.format),
                found.content@,
            ),
        },
        Ok(SearchOutcome::Miss) => Reply::Nothing,
        Ok(SearchOutcome::Unavailable) => Reply::Unavailable,
    }
}

/// What the chain of the other providers tells.
pub fn chain_replies(outcome: &Result<SearchOutcome, AppError>) -> (r: Reply)
    ensures
        r == chain_reply(*outcome),
{
    match outcome {
        Err(_) => Reply::Failed,
        Ok(SearchOutcome::Found(found)) => Reply::Found {
            synced: lyrics_are_synced(
                &external_format_to_app(found.format),
                found.content.as_str(),
            ),
        },
        Ok(SearchOutcome::Miss) => Reply::Nothing,
        Ok(SearchOutcome::Unavailable) => Reply::Unavailable,
    }
}

/// What a search by one named provider comes to: what goes into the cache and what
/// the interface is told. That it has no lyrics is remembered under its own name,
/// and only where it was asked.
pub fn named_answer(
    track_id: i64,
    file_hash: &str,
    provider: Provider,
    outcome: SearchOutcome,
    now: i64,
) -> (r: Option<(CacheWrite, LyricsPayload)>)
    ensures
        match outcome {
            SearchOutcome::Unavailable => r is None,
            SearchOutcome::Found(found) => {
                &&& r matches Some((write, told))
                &&& write@ == (lyrics::CachedNote {
                    row: lyrics::row_of(
                        file_hash@,
                        found.content@,
                        lyrics_format::external_as_app(found.format),
                        lyrics_format::LyricsSource::Api,
                        Some(lyrics_providers::provider_id(found.provider)),
                        None,
                        now,
                    ),
                    associated: seq![],
                })
                &&& told@ == lyrics_radio::found_payload(track_id, found)
            },
            SearchOutcome::Miss => {
                &&& r matches Some((write, told))
                &&& write@ == (lyrics::CachedNote {
                    row: lyrics::row_of(
                        file_hash@,
                        seq![],
                        lyrics_format::LyricsFormat::Plain,
                        lyrics_format::LyricsSource::Api,
                        Some(lyrics_providers::provider_id(provider)),
                        None,
                        now,
                    ),
                    associated: seq![],
                })
                &&& told@ == lyrics::single(
                    track_id,
                    seq![],
                    lyrics_format::LyricsFormat::Plain,
                    lyrics_format::LyricsSource::Api,
                    Some(lyrics_providers::provider_id(provider)),
                )
            },
        },
{
    match outcome {
        SearchOutcome::Unavailable => None,
        SearchOutcome::Found(found) => Some(cache_external_lyrics(track_id, file_hash, found, now)),
        SearchOutcome::Miss => Some(cache_lyrics_miss(track_id, file_hash, Some(provider), now)),
    }
}

/// Whatever LRCLIB has of a track is found, timed or plain, and whether it can be followed
/// is told. It tells that there is nothing only where it does not know the track or its
/// entry is empty.
pub proof fn whatever_lrclib_has_is_found(
    answer: Result<Option<LrclibPick>, AppError>,
    content: String,
    format: lyrics_format::LyricsFormat,
)
    ensures
        lrclib_reply(Ok(Some(LrclibPick::Lyrics(content, format)))) == (Reply::Found {
            synced: lyrics_sync::synced(format, content@),
        }),
        lrclib_reply(
            Ok(Some(LrclibPick::Lyrics(content, lyrics_format::LyricsFormat::Plain))),
        ) == (Reply::Found { synced: false }),
        lrclib_reply(answer) is Nothing <==> answer == Ok::<Option<LrclibPick>, AppError>(None)
            || answer == Ok::<Option<LrclibPick>, AppError>(Some(LrclibPick::Empty)),
        lrclib_reply(answer) is Instrumental <==> answer == Ok::<Option<LrclibPick>, AppError>(
            Some(LrclibPick::Instrumental),
        ),
        lrclib_reply(answer) is Failed <==> answer is Err,
        lrclib_reply(answer) is Found <==> answer is Ok && answer->Ok_0 is Some
            && answer->Ok_0->0 is Lyrics,
{
}

/// Lyrics that LRCLIB serves end a lookup in which nobody asked before had any, plain ones
/// too: the answer that stands is LRCLIB's.
pub proof fn lrclib_lyrics_end_a_lookup(
    world: lyrics_waterfall::World,
    content: String,
    format: lyrics_format::LyricsFormat,
)
    requires
        world.fits(),
        (world.reply)(lyrics_waterfall::Ask::Cache) is Nothing,
        (world.reply)(lyrics_waterfall::Ask::Track) == (Reply::Track { artist: true }),
        (world.reply)(lyrics_waterfall::Ask::Preference) == (Reply::Prefer { network: false }),
        (world.reply)(lyrics_waterfall::Ask::Local) is Nothing,
        (world.reply)(lyrics_waterfall::Ask::Plugins) is Nothing,
        (world.reply)(lyrics_waterfall::Ask::Musixmatch) is Nothing,
        (world.reply)(lyrics_waterfall::Ask::Lrclib) == lrclib_reply(Ok(Some(LrclibPick::Lyrics(content, format)))),
        (world.reply)(lyrics_waterfall::Ask::Store(lyrics_waterfall::Tier::Lrclib)) is Stored,
        forall|ask: lyrics_waterfall::Ask| !(#[trigger] (world.offline)(ask)),
    ensures
        lyrics_waterfall::run(world, lyrics_waterfall::Waterfall::start(), 11).verdict == lyrics_waterfall::Verdict::Answer(lyrics_waterfall::Tier::Lrclib),
{
    lyrics_waterfall::a_lookup_ends_as_told(world);
}

/// Local lyrics and a plugin's are found whatever their format is, and so are those of the
/// other providers; of Musixmatch's only those with timed words are. Whether they can be
/// followed is told of what was found.
pub proof fn whatever_a_source_has_is_found(
    p: LyricsPayload,
    found: lyrics::ExternalLyricsResult,
    e: AppError,
)
    ensures
        payload_reply(Ok(Some(p))) == (Reply::Found {
            synced: lyrics_sync::synced(p.format, p.content@),
        }),
        payload_reply(Ok(None)) is Nothing,
        payload_reply(Err(e)) is Failed,
        chain_reply(Ok(SearchOutcome::Found(found))) == (Reply::Found {
            synced: lyrics_sync::synced(
                lyrics_format::external_as_app(found.format),
                found.content@,
            ),
        }),
        chain_reply(Ok(SearchOutcome::Miss)) is Nothing,
        chain_reply(Ok(SearchOutcome::Unavailable)) is Unavailable,
        chain_reply(Err(e)) is Failed,
        musixmatch_reply(Ok(SearchOutcome::Found(found))) is Found <==> found.format
            == ExternalLyricsFormat::EnhancedLrc,
        found.format != ExternalLyricsFormat::EnhancedLrc ==> musixmatch_reply(
            Ok(SearchOutcome::Found(found)),
        ) is Nothing,
        musixmatch_reply(Ok(SearchOutcome::Found(found))) matches Reply::Found { synced } ==> synced
            == lyrics_sync::synced(lyrics_format::LyricsFormat::EnhancedLrc, found.content@),
        musixmatch_reply(Ok(SearchOutcome::Miss)) is Nothing,
        musixmatch_reply(Ok(SearchOutcome::Unavailable)) is Nothing,
        musixmatch_reply(Err(e)) is Failed,
{
}

} // verus!
