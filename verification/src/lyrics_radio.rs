//! Lyrics of songs that no library row stands for: web radio and a remote
//! server's tracks, known by artist and title.

use vstd::prelude::*;
use vstd::string::StringExecFns;

use crate::digest;
use crate::digest::hex_digest;
use crate::lyrics;
use crate::lyrics::{payload, ExternalLyricsResult, LyricsPayload};
use crate::lyrics_format;
use crate::lyrics_format::{
    external_format_to_app, format_to_db, parse_format, parse_source, LyricsFormat, LyricsSource,
};
use crate::lyrics_providers;
use crate::text;
use crate::text::blank;

verus! {

/// The byte between the artist and the title of a key.
pub const KEY_SEPARATOR: u8 = 0x1f;

/// What a song's key is the hash of: the artist and the title, each trimmed and
/// in lower case.
pub open spec fn key_bytes(artist: Seq<char>, title: Seq<char>) -> Seq<u8> {
    vstd::utf8::encode_utf8(text::unicode_lowercase(text::trimmed(artist))) + seq![KEY_SEPARATOR]
        + vstd::utf8::encode_utf8(text::unicode_lowercase(text::trimmed(title)))
}

/// The key that a song's lyrics are cached under.
pub fn radio_lyrics_key(artist: &str, title: &str) -> (r: String)
    ensures
        r@ == digest::blake3_hex(key_bytes(artist@, title@)),
{
    let mut bytes = artist.trim().to_lowercase().as_str().as_bytes_vec();
    bytes.push(KEY_SEPARATOR);
    let mut tail = title.trim().to_lowercase().as_str().as_bytes_vec();
    bytes.append(&mut tail);
    assert(bytes@ =~= key_bytes(artist@, title@));
    hex_digest(bytes.as_slice())
}

/// A song's key does not hang on the case and the margins of its artist and
/// title.
pub proof fn a_key_ignores_margins_and_case(a: Seq<char>, b: Seq<char>, title: Seq<char>)
    requires
        text::unicode_lowercase(text::trimmed(a)) == text::unicode_lowercase(text::trimmed(b)),
    ensures
        key_bytes(a, title) == key_bytes(b, title),
        key_bytes(title, a) == key_bytes(title, b),
{
}

/// A song to be looked for.
#[derive(PartialEq, Eq, Debug)]
pub struct RadioSong {
    pub artist: String,
    pub title: String,
    /// The key that its lyrics are cached under.
    pub key: String,
}

/// The song that an artist and a title name, trimmed; none when either is blank.
pub fn radio_song(artist: &str, title: &str) -> (r: Option<RadioSong>)
    ensures
        r is Some <==> !text::is_blank(artist@) && !text::is_blank(title@),
        r matches Some(s) ==> {
            &&& s.artist@ == text::trimmed(artist@)
            &&& s.title@ == text::trimmed(title@)
            &&& s.key@ == digest::blake3_hex(key_bytes(s.artist@, s.title@))
        },
{
    if blank(artist) || blank(title) {
        return None;
    }
    let artist = artist.trim();
    let title = title.trim();
    Some(
        RadioSong {
            key: radio_lyrics_key(artist, title),
            artist: artist.to_owned(),
            title: title.to_owned(),
        },
    )
}

/// A song's cached lyrics, as stored; empty ones say that nobody has any.
#[derive(PartialEq, Eq, Debug)]
pub struct RadioRow {
    pub content: String,
    pub format: String,
    pub source: String,
    pub provider: Option<String>,
}

/// What a stored row says.
pub struct RadioRowNote {
    pub content: Seq<char>,
    pub format: Seq<char>,
    pub source: Seq<char>,
    pub provider: Option<Seq<char>>,
}

impl RadioRow {
    pub open spec fn view(&self) -> RadioRowNote {
        RadioRowNote {
            content: self.content@,
            format: self.format@,
            source: self.source@,
            provider: text::opt_text(self.provider),
        }
    }
}

/// What cached lyrics of a song are read as.
pub open spec fn radio_read(track_id: i64, row: RadioRowNote) -> Option<lyrics::PayloadNote> {
    if row.content.len() == 0 {
        None
    } else {
        Some(
            lyrics::single(
                track_id,
                row.content,
                lyrics_format::format_named(row.format),
                lyrics_format::source_named(row.source),
                row.provider,
            ),
        )
    }
}

/// What the interface is told, where it is told anything.
pub open spec fn opt_payload(p: Option<LyricsPayload>) -> Option<lyrics::PayloadNote> {
    match p {
        Some(p) => Some(p@),
        None => None,
    }
}

/// What cached lyrics of a song are read as.
pub fn read_radio_cached(track_id: i64, row: RadioRow) -> (r: Option<LyricsPayload>)
    ensures
        opt_payload(r) == radio_read(track_id, row@),
{
    proof {
        reveal_strlit("");
    }
    if text::same_text(row.content.as_str(), "") {
        None
    } else {
        assert(row.content@.len() > 0) by {
            if row.content@.len() == 0 {
                assert(row.content@ =~= ""@);
            }
        }
        let format = parse_format(row.format.as_str());
        let source = parse_source(row.source.as_str());
        Some(payload(track_id, row.content, format, source, row.provider))
    }
}

/// What a search came to.
#[derive(PartialEq, Eq, Debug)]
pub enum SearchOutcome {
    Found(ExternalLyricsResult),
    /// The providers were asked and none had lyrics.
    Miss,
    /// Nobody was asked.
    Unavailable,
}

/// What a search comes to. Where one that would have been asked sat out, that nothing
/// was found is no verdict, and nothing is remembered of it.
pub fn search_verdict(outcome: SearchOutcome, partial: bool) -> (r: SearchOutcome)
    ensures
        r == (if partial && outcome is Miss {
            SearchOutcome::Unavailable
        } else {
            outcome
        }),
{
    match outcome {
        SearchOutcome::Miss => {
            if partial {
                SearchOutcome::Unavailable
            } else {
                SearchOutcome::Miss
            }
        },
        other => other,
    }
}

/// What goes into the cache for a song.
pub open spec fn radio_row(
    content: Seq<char>,
    format: LyricsFormat,
    provider: Option<Seq<char>>,
) -> RadioRowNote {
    RadioRowNote {
        content,
        format: lyrics_format::format_name(format),
        source: lyrics_format::source_name(LyricsSource::Api),
        provider,
    }
}

/// What the interface is told of what a provider found.
pub open spec fn found_payload(track_id: i64, found: ExternalLyricsResult) -> lyrics::PayloadNote {
    lyrics::single(
        track_id,
        found.content@,
        lyrics_format::external_as_app(found.format),
        LyricsSource::Api,
        Some(lyrics_providers::provider_id(found.provider)),
    )
}

/// What the search for a song comes to: what goes into the cache, where anything
/// does, and what the interface is told. A search in which nobody was asked
/// leaves no trace.
pub fn fetch_radio_lyrics(track_id: i64, outcome: SearchOutcome) -> (r: (
    Option<RadioRow>,
    Option<LyricsPayload>,
))
    ensures
        match outcome {
            SearchOutcome::Found(found) => {
                &&& r.0 matches Some(row)
                &&& row@ == radio_row(
                    found.content@,
                    lyrics_format::external_as_app(found.format),
                    Some(lyrics_providers::provider_id(found.provider)),
                )
                &&& opt_payload(r.1) == Some(found_payload(track_id, found))
            },
            SearchOutcome::Miss => {
                &&& r.0 matches Some(row)
                &&& row@ == radio_row(seq![], LyricsFormat::Plain, None)
                &&& r.1 is None
            },
            SearchOutcome::Unavailable => r.0 is None && r.1 is None,
        },
{
    match outcome {
        SearchOutcome::Found(found) => {
            let format = external_format_to_app(found.format);
            let provider = found.provider.as_str();
            let row = RadioRow {
                content: found.content.clone(),
                format: format_to_db(&format).to_owned(),
                source: "api".to_owned(),
                provider: Some(provider.to_owned()),
            };
            let told = payload(
                track_id,
                found.content,
                format,
                LyricsSource::Api,
                Some(provider.to_owned()),
            );
            (Some(row), Some(told))
        },
        SearchOutcome::Miss => {
            let row = RadioRow {
                content: String::new(),
                format: format_to_db(&LyricsFormat::Plain).to_owned(),
                source: "api".to_owned(),
                provider: None,
            };
            (Some(row), None)
        },
        SearchOutcome::Unavailable => (None, None),
    }
}

/// The lyrics that a song's search found are those that are read from the cache
/// when the song comes again, unless they are empty; and a search that found
/// none is remembered.
pub proof fn a_song_reads_back(track_id: i64, found: ExternalLyricsResult)
    ensures
        found.content@.len() > 0 ==> radio_read(
            track_id,
            radio_row(
                found.content@,
                lyrics_format::external_as_app(found.format),
                Some(lyrics_providers::provider_id(found.provider)),
            ),
        ) == Some(found_payload(track_id, found)),
        radio_read(track_id, radio_row(seq![], LyricsFormat::Plain, None)) is None,
{
    lyrics_format::a_stored_format_reads_back(lyrics_format::external_as_app(found.format));
    lyrics_format::a_stored_source_reads_back(LyricsSource::Api);
}

/// The lyrics that a remote server has for one of its tracks.
#[derive(PartialEq, Eq, Debug)]
pub struct ServerLyrics {
    pub content: String,
    pub synced: bool,
}

/// What the interface is told of a remote server's lyrics.
pub fn server_payload(track_id: i64, served: ServerLyrics) -> (r: LyricsPayload)
    ensures
        r@ == lyrics::single(
            track_id,
            served.content@,
            if served.synced {
                LyricsFormat::Lrc
            } else {
                LyricsFormat::Plain
            },
            LyricsSource::Api,
            None,
        ),
{
    let format = if served.synced {
        LyricsFormat::Lrc
    } else {
        LyricsFormat::Plain
    };
    payload(track_id, served.content, format, LyricsSource::Api, None)
}

/// The artist and the title that the providers are asked for once the server has
/// no lyrics: none when either is blank or the network is off.
pub fn remote_song(artist: &str, title: &str, offline: bool) -> (r: Option<(String, String)>)
    ensures
        r is Some <==> !offline && !text::is_blank(artist@) && !text::is_blank(title@),
        r matches Some((a, t)) ==> a@ == text::trimmed(artist@) && t@ == text::trimmed(title@),
{
    if offline || blank(artist) || blank(title) {
        None
    } else {
        Some((artist.trim().to_owned(), title.trim().to_owned()))
    }
}

/// What the interface is told of the providers' answer for a remote server's
/// track: nothing unless they found something.
pub fn fetch_remote_lyrics(track_id: i64, outcome: SearchOutcome) -> (r: Option<LyricsPayload>)
    ensures
        opt_payload(r) == (match outcome {
            SearchOutcome::Found(found) => Some(found_payload(track_id, found)),
            _ => None,
        }),
{
    match outcome {
        SearchOutcome::Found(found) => {
            let format = external_format_to_app(found.format);
            let provider = found.provider.as_str().to_owned();
            Some(payload(track_id, found.content, format, LyricsSource::Api, Some(provider)))
        },
        _ => None,
    }
}

/// Margins around an artist and a title do not change a song's key, and a byte that stands
/// in no name parts the two.
pub proof fn a_key_is_made_of_artist_and_title(
    a: Seq<char>,
    artist: Seq<char>,
    b: Seq<char>,
    title: Seq<char>,
)
    requires
        text::is_blank(a),
        text::is_blank(b),
        artist.len() > 0 && !text::is_white_space(artist[0]) && !text::is_white_space(artist.last()),
        title.len() > 0 && !text::is_white_space(title[0]) && !text::is_white_space(title.last()),
    ensures
        key_bytes(a + artist + b, title) == key_bytes(artist, title),
        key_bytes(artist, a + title + b) == key_bytes(artist, title),
        key_bytes(artist, title) == vstd::utf8::encode_utf8(text::unicode_lowercase(artist))
            + seq![0x1fu8] + vstd::utf8::encode_utf8(text::unicode_lowercase(title)),
{
    text::margins_are_trimmed(a, artist, b);
    text::margins_are_trimmed(a, title, b);
    let none = Seq::<char>::empty();
    text::margins_are_trimmed(none, artist, none);
    text::margins_are_trimmed(none, title, none);
    assert(none + artist + none =~= artist);
    assert(none + title + none =~= title);
}

/// A song's cached lyrics are read with their own words and provider, in their own format
/// and source, and empty ones say that there are none.
pub proof fn a_songs_lyrics_keep_their_fields(track_id: i64, row: RadioRowNote)
    ensures
        row.content.len() == 0 ==> radio_read(track_id, row) is None,
        row.content.len() > 0 ==> {
            &&& radio_read(track_id, row) matches Some(p)
            &&& p.track_id == track_id
            &&& p.content == row.content
            &&& p.provider == row.provider
            &&& p.format == lyrics_format::format_named(row.format)
            &&& p.source == lyrics_format::source_named(row.source)
        },
{
}

/// What a provider found is told and kept with its own words, in its own format, under its
/// own name, as an answer off the network.
pub proof fn a_found_song_keeps_its_fields(
    track_id: i64,
    found: ExternalLyricsResult,
    format: LyricsFormat,
    provider: Option<Seq<char>>,
)
    ensures
        found_payload(track_id, found).track_id == track_id,
        found_payload(track_id, found).content == found.content@,
        found_payload(track_id, found).format == lyrics_format::external_as_app(found.format),
        found_payload(track_id, found).source == LyricsSource::Api,
        found_payload(track_id, found).provider == Some(
            lyrics_providers::provider_id(found.provider),
        ),
        radio_row(found.content@, format, provider).content == found.content@,
        radio_row(found.content@, format, provider).provider == provider,
        radio_row(found.content@, format, provider).source == "api"@,
        lyrics_format::format_named(radio_row(found.content@, format, provider).format) == format,
{
    lyrics_format::a_stored_format_reads_back(format);
}

/// What the interface is told is told as it is, and nothing where there is nothing.
pub proof fn a_payload_is_told_as_it_is(p: LyricsPayload)
    ensures
        opt_payload(Some(p)) == Some(p@),
        opt_payload(None) is None,
{
}

/// What is stored of a song is what the row holds, each thing in its place.
pub proof fn a_song_is_stored_as_it_is(r: RadioRow)
    ensures
        r@.content == r.content@,
        r@.format == r.format@,
        r@.source == r.source@,
        r.provider is Some ==> r@.provider == Some(r.provider->0@),
        r.provider is None ==> r@.provider is None,
{
}

} // verus!
