//! A track's lyrics as the interface is told them and as the cache keeps them,
//! with the documents that came along.

use vstd::prelude::*;
use vstd::string::StringExecFns;

use crate::error;
use crate::error::AppError;
use crate::decimal;
use crate::decimal::i64_text;
use crate::lyrics_format;
use crate::lyrics_format::{
    detect_format, document_is_what_it_claims, external_format_to_app, format_to_db, parse_format,
    parse_source, plugin_format_to_app, source_to_db, ExternalLyricsFormat, LyricsFormat,
    LyricsSource, PluginLyricsFormat,
};
use crate::lyrics_providers;
use crate::lyrics_providers::{filter_providers, list_has_provider, Provider};
use crate::lyrics_tags;
use crate::lyrics_tags::is_service_blurb;
use crate::text;
use crate::text::{around, before, blank, clone_opt, comes_before, same_text};

verus! {

/// What marks a provider's name as that of a plugin.
pub const PLUGIN_PROVIDER_PREFIX: &'static str = "plugin:";

/// A further document beside the lyrics.
#[derive(PartialEq, Eq, Debug)]
pub struct AssociatedLyrics {
    /// `translation` or `pronunciation`.
    pub kind: String,
    pub language: Option<String>,
    pub content: String,
    pub format: LyricsFormat,
}

/// A track's lyrics, as the interface is told them.
#[derive(PartialEq, Eq, Debug)]
pub struct LyricsPayload {
    pub track_id: i64,
    pub content: String,
    pub format: LyricsFormat,
    pub source: LyricsSource,
    /// Who served the lyrics, where they came off the network.
    pub provider: Option<String>,
    /// Set when the file's tag could not carry what was to be saved in it.
    pub tag_write_skipped: Option<bool>,
    /// Set when no file beside the track could carry what was to be saved.
    pub sidecar_write_skipped: Option<bool>,
    /// The translations and pronunciations of the same answer.
    pub associated: Vec<AssociatedLyrics>,
}

/// What a further document says.
#[verifier::ext_equal]
pub struct AssociatedNote {
    pub kind: Seq<char>,
    pub language: Option<Seq<char>>,
    pub content: Seq<char>,
    pub format: LyricsFormat,
}

/// What the interface is told.
#[verifier::ext_equal]
pub struct PayloadNote {
    pub track_id: i64,
    pub content: Seq<char>,
    pub format: LyricsFormat,
    pub source: LyricsSource,
    pub provider: Option<Seq<char>>,
    pub tag_write_skipped: Option<bool>,
    pub sidecar_write_skipped: Option<bool>,
    pub associated: Seq<AssociatedNote>,
}

impl AssociatedLyrics {
    pub open spec fn view(&self) -> AssociatedNote {
        AssociatedNote {
            kind: self.kind@,
            language: text::opt_text(self.language),
            content: self.content@,
            format: self.format,
        }
    }
}

/// What a list of further documents says.
pub open spec fn associated_notes(v: Seq<AssociatedLyrics>) -> Seq<AssociatedNote> {
    v.map_values(|a: AssociatedLyrics| a@)
}

impl LyricsPayload {
    pub open spec fn view(&self) -> PayloadNote {
        PayloadNote {
            track_id: self.track_id,
            content: self.content@,
            format: self.format,
            source: self.source,
            provider: text::opt_text(self.provider),
            tag_write_skipped: self.tag_write_skipped,
            sidecar_write_skipped: self.sidecar_write_skipped,
            associated: associated_notes(self.associated@),
        }
    }
}

/// An answer of one document, with nothing skipped.
pub open spec fn single(
    track_id: i64,
    content: Seq<char>,
    format: LyricsFormat,
    source: LyricsSource,
    provider: Option<Seq<char>>,
) -> PayloadNote {
    PayloadNote {
        track_id,
        content,
        format,
        source,
        provider,
        tag_write_skipped: None,
        sidecar_write_skipped: None,
        associated: seq![],
    }
}

/// An answer of one document, with nothing skipped.
pub fn payload(
    track_id: i64,
    content: String,
    format: LyricsFormat,
    source: LyricsSource,
    provider: Option<String>,
) -> (r: LyricsPayload)
    ensures
        r@ == single(track_id, content@, format, source, text::opt_text(provider)),
{
    let r = LyricsPayload {
        track_id,
        content,
        format,
        source,
        provider,
        tag_write_skipped: None,
        sidecar_write_skipped: None,
        associated: Vec::new(),
    };
    assert(r@.associated =~= seq![]);
    r
}

/// Lyrics found in a file on this machine, in the format they look like.
pub fn local_payload(track_id: i64, content: String, source: LyricsSource) -> (r: LyricsPayload)
    ensures
        r@ == single(track_id, content@, lyrics_format::sniffed(content@), source, None),
{
    let format = detect_format(content.as_str());
    payload(track_id, content, format, source, None)
}

/// What is known of a track when its lyrics are looked for.
#[derive(PartialEq, Eq, Debug)]
pub struct TrackMeta {
    pub file_path: String,
    pub file_hash: String,
    pub title: String,
    pub artist_name: Option<String>,
    pub album_title: Option<String>,
    pub duration_ms: i64,
}

// The cache.

/// The cached lyrics of a file, as stored.
#[derive(PartialEq, Eq, Debug)]
pub struct LyricsRow {
    pub file_hash: String,
    pub content: String,
    pub format: String,
    pub source: String,
    pub provider: Option<String>,
    pub language: Option<String>,
    pub fetched_at: i64,
}

/// A further document of a file's cached lyrics, as stored.
#[derive(PartialEq, Eq, Debug)]
pub struct AssociatedRow {
    pub kind: String,
    pub language: Option<String>,
    pub content: String,
    pub format: String,
}

/// What a stored row says.
pub struct RowNote {
    pub file_hash: Seq<char>,
    pub content: Seq<char>,
    pub format: Seq<char>,
    pub source: Seq<char>,
    pub provider: Option<Seq<char>>,
    pub language: Option<Seq<char>>,
    pub fetched_at: i64,
}

/// What a stored further document says.
pub struct AssociatedRowNote {
    pub kind: Seq<char>,
    pub language: Option<Seq<char>>,
    pub content: Seq<char>,
    pub format: Seq<char>,
}

impl LyricsRow {
    pub open spec fn view(&self) -> RowNote {
        RowNote {
            file_hash: self.file_hash@,
            content: self.content@,
            format: self.format@,
            source: self.source@,
            provider: text::opt_text(self.provider),
            language: text::opt_text(self.language),
            fetched_at: self.fetched_at,
        }
    }
}

impl AssociatedRow {
    pub open spec fn view(&self) -> AssociatedRowNote {
        AssociatedRowNote {
            kind: self.kind@,
            language: text::opt_text(self.language),
            content: self.content@,
            format: self.format@,
        }
    }
}

/// What a list of stored documents says.
pub open spec fn row_notes(v: Seq<AssociatedRow>) -> Seq<AssociatedRowNote> {
    v.map_values(|a: AssociatedRow| a@)
}

/// One fetch result as it goes into the cache, as a unit: the row takes the
/// place of the file's row, and the documents that of all the documents that
/// the file had.
#[derive(PartialEq, Eq, Debug)]
pub struct CacheWrite {
    pub row: LyricsRow,
    pub associated: Vec<AssociatedRow>,
}

/// What the cache holds of a file.
pub struct CachedNote {
    pub row: RowNote,
    pub associated: Seq<AssociatedRowNote>,
}

impl CacheWrite {
    pub open spec fn view(&self) -> CachedNote {
        CachedNote { row: self.row@, associated: row_notes(self.associated@) }
    }
}

/// The cache after a write.
pub open spec fn cache_after(
    cache: Map<Seq<char>, CachedNote>,
    write: CacheWrite,
) -> Map<Seq<char>, CachedNote> {
    cache.insert(write.row.file_hash@, write@)
}

/// The row that stands for one document.
pub open spec fn row_of(
    file_hash: Seq<char>,
    content: Seq<char>,
    format: LyricsFormat,
    source: LyricsSource,
    provider: Option<Seq<char>>,
    language: Option<Seq<char>>,
    fetched_at: i64,
) -> RowNote {
    RowNote {
        file_hash,
        content,
        format: lyrics_format::format_name(format),
        source: lyrics_format::source_name(source),
        provider,
        language,
        fetched_at,
    }
}

/// The row that stands for one document.
pub fn write_primary_lyrics(
    file_hash: &str,
    content: &str,
    format: &LyricsFormat,
    source: &LyricsSource,
    provider: Option<String>,
    language: Option<String>,
    fetched_at: i64,
) -> (r: LyricsRow)
    ensures
        r@ == row_of(
            file_hash@,
            content@,
            *format,
            *source,
            text::opt_text(provider),
            text::opt_text(language),
            fetched_at,
        ),
{
    LyricsRow {
        file_hash: file_hash.to_owned(),
        content: content.to_owned(),
        format: format_to_db(format).to_owned(),
        source: source_to_db(source).to_owned(),
        provider,
        language,
        fetched_at,
    }
}

/// What goes into the cache for an answer of one document: no language, and
/// no further document.
pub fn upsert_lyrics(
    file_hash: &str,
    content: &str,
    format: &LyricsFormat,
    source: &LyricsSource,
    provider: Option<String>,
    now: i64,
) -> (w: CacheWrite)
    ensures
        w@ == (CachedNote {
            row: row_of(file_hash@, content@, *format, *source, text::opt_text(provider), None, now),
            associated: seq![],
        }),
{
    let row = write_primary_lyrics(file_hash, content, format, source, provider, None, now);
    let w = CacheWrite { row, associated: Vec::new() };
    assert(w@.associated =~= seq![]);
    w
}

/// What a stored document is read as.
pub open spec fn associated_read(row: AssociatedRowNote) -> AssociatedNote {
    AssociatedNote {
        kind: row.kind,
        language: row.language,
        content: row.content,
        format: lyrics_format::format_named(row.format),
    }
}

/// Whether a language comes before another: none at all comes first.
pub open spec fn language_precedes(a: Option<Seq<char>>, b: Option<Seq<char>>) -> bool {
    match (a, b) {
        (Some(x), Some(y)) => text::precedes(x, y),
        (None, Some(_)) => true,
        (_, None) => false,
    }
}

/// Whether a document is read before another: by its kind, and then by its language.
pub open spec fn read_before(a: AssociatedNote, b: AssociatedNote) -> bool {
    text::precedes(a.kind, b.kind) || (a.kind == b.kind && language_precedes(
        a.language,
        b.language,
    ))
}

/// The place of a document: in front of the first that it is read before.
pub open spec fn reading_place(docs: Seq<AssociatedNote>, a: AssociatedNote) -> int
    decreases docs.len(),
{
    if docs.len() == 0 || read_before(a, docs[0]) {
        0
    } else {
        1 + reading_place(docs.drop_first(), a)
    }
}

/// Documents in the order in which they are read: each takes its place among those
/// in front of it.
pub open spec fn in_reading_order(docs: Seq<AssociatedNote>) -> Seq<AssociatedNote>
    decreases docs.len(),
{
    if docs.len() == 0 {
        seq![]
    } else {
        let earlier = in_reading_order(docs.drop_last());
        earlier.insert(reading_place(earlier, docs.last()), docs.last())
    }
}

proof fn lemma_reading_place(l: Seq<AssociatedNote>, a: AssociatedNote, k: int)
    requires
        0 <= k <= l.len(),
        forall|j: int| 0 <= j < k ==> !read_before(a, #[trigger] l[j]),
        k < l.len() ==> read_before(a, l[k]),
    ensures
        reading_place(l, a) == k,
    decreases l.len(),
{
    if l.len() > 0 && !read_before(a, l[0]) {
        let rest = l.drop_first();
        assert forall|j: int| 0 <= j < k - 1 implies !read_before(a, #[trigger] rest[j]) by {
            assert(rest[j] == l[j + 1]);
        }
        lemma_reading_place(rest, a, k - 1);
    }
}

proof fn lemma_reading_place_bounds(l: Seq<AssociatedNote>, a: AssociatedNote)
    ensures
        0 <= reading_place(l, a) <= l.len(),
        forall|j: int| 0 <= j < reading_place(l, a) ==> !read_before(a, #[trigger] l[j]),
        reading_place(l, a) < l.len() ==> read_before(a, l[reading_place(l, a)]),
    decreases l.len(),
{
    if l.len() > 0 && !read_before(a, l[0]) {
        let rest = l.drop_first();
        lemma_reading_place_bounds(rest, a);
        assert forall|j: int| 0 <= j < reading_place(l, a) implies !read_before(
            a,
            #[trigger] l[j],
        ) by {
            if j > 0 {
                assert(rest[j - 1] == l[j]);
            }
        }
    }
}

proof fn lemma_read_before(a: AssociatedNote, b: AssociatedNote, c: AssociatedNote)
    ensures
        !read_before(a, a),
        !(read_before(a, b) && read_before(b, a)),
        read_before(a, b) && read_before(b, c) ==> read_before(a, c),
{
    text::lemma_not_before_itself(a.kind);
    text::lemma_one_before(a.kind, b.kind);
    if text::precedes(a.kind, b.kind) && text::precedes(b.kind, c.kind) {
        text::lemma_before_transitive(a.kind, b.kind, c.kind);
    }
    if let (Some(x), Some(y)) = (a.language, b.language) {
        text::lemma_one_before(x, y);
        if let Some(z) = c.language {
            if text::precedes(x, y) && text::precedes(y, z) {
                text::lemma_before_transitive(x, y, z);
            }
        }
    }
    if let Some(x) = a.language {
        text::lemma_not_before_itself(x);
    }
}

/// The documents of an answer are read ordered by kind and language, those without a
/// language first.
pub proof fn documents_are_read_in_order(docs: Seq<AssociatedNote>)
    ensures
        forall|i: int, j: int|
            0 <= i < j < in_reading_order(docs).len() ==> !read_before(
                #[trigger] in_reading_order(docs)[j],
                #[trigger] in_reading_order(docs)[i],
            ),
    decreases docs.len(),
{
    if docs.len() > 0 {
        let a = docs.last();
        let earlier = in_reading_order(docs.drop_last());
        documents_are_read_in_order(docs.drop_last());
        lemma_reading_place_bounds(earlier, a);
        let k = reading_place(earlier, a);
        let all = earlier.insert(k, a);
        assert forall|i: int, j: int| 0 <= i < j < all.len() implies !read_before(
            #[trigger] all[j],
            #[trigger] all[i],
        ) by {
            let x = if i < k {
                earlier[i]
            } else if i == k {
                a
            } else {
                earlier[i - 1]
            };
            let y = if j < k {
                earlier[j]
            } else if j == k {
                a
            } else {
                earlier[j - 1]
            };
            assert(all[i] == x);
            assert(all[j] == y);
            if i == k {
                let s = earlier[k];
                lemma_read_before(y, a, s);
                lemma_read_before(s, s, s);
                if j - 1 > k {
                    assert(!read_before(earlier[j - 1], earlier[k]));
                }
            }
        }
    }
}

/// No document is lost when an answer is read, and none is added.
pub proof fn every_document_is_read(docs: Seq<AssociatedNote>)
    ensures
        in_reading_order(docs).to_multiset() == docs.to_multiset(),
    decreases docs.len(),
{
    if docs.len() > 0 {
        let a = docs.last();
        let rest = docs.drop_last();
        let earlier = in_reading_order(rest);
        every_document_is_read(rest);
        lemma_reading_place_bounds(earlier, a);
        vstd::seq_lib::to_multiset_insert(earlier, reading_place(earlier, a), a);
        vstd::seq_lib::to_multiset_build(rest, a);
        assert(rest.push(a) =~= docs);
    } else {
        assert(in_reading_order(docs) =~= docs);
    }
}

/// Whether a document of this kind and language is read before another one.
fn goes_before(kind: &str, language: &Option<String>, other: &AssociatedLyrics) -> (r: bool)
    ensures
        forall|a: AssociatedNote|
            a.kind == kind@ && a.language == text::opt_text(*language) ==> r == #[trigger]
                read_before(a, other@),
{
    if comes_before(kind, other.kind.as_str()) {
        return true;
    }
    if !same_text(kind, other.kind.as_str()) {
        return false;
    }
    match (language, &other.language) {
        (Some(x), Some(y)) => comes_before(x.as_str(), y.as_str()),
        (None, Some(_)) => true,
        (_, None) => false,
    }
}

/// The stored documents, as the interface is told them, by kind and language.
pub fn read_associated(rows: Vec<AssociatedRow>) -> (v: Vec<AssociatedLyrics>)
    ensures
        associated_notes(v@) == in_reading_order(
            row_notes(rows@).map_values(|row: AssociatedRowNote| associated_read(row)),
        ),
{
    let ghost docs = row_notes(rows@).map_values(|row: AssociatedRowNote| associated_read(row));
    let mut v: Vec<AssociatedLyrics> = Vec::new();
    let total: usize = rows.len();
    let mut i: usize = 0;
    assert(associated_notes(v@) =~= in_reading_order(docs.take(0)));
    while i < total
        invariant
            total == rows@.len(),
            i <= total,
            docs == row_notes(rows@).map_values(|row: AssociatedRowNote| associated_read(row)),
            associated_notes(v@) == in_reading_order(docs.take(i as int)),
        decreases total - i,
    {
        let row = &rows[i];
        let doc = AssociatedLyrics {
            kind: row.kind.clone(),
            language: clone_opt(&row.language),
            content: row.content.clone(),
            format: parse_format(row.format.as_str()),
        };
        assert(doc@ == docs[i as int]);
        let ghost earlier = associated_notes(v@);
        let mut k: usize = 0;
        while k < v.len() && !goes_before(doc.kind.as_str(), &doc.language, &v[k])
            invariant
                k <= v@.len(),
                earlier == associated_notes(v@),
                forall|j: int| 0 <= j < k ==> !read_before(doc@, #[trigger] earlier[j]),
            decreases v@.len() - k,
        {
            assert(!read_before(doc@, v@[k as int]@));
            k = k + 1;
        }
        proof {
            if k < v@.len() {
                assert(read_before(doc@, v@[k as int]@));
            }
            lemma_reading_place(earlier, doc@, k as int);
            assert(docs.take(i + 1).drop_last() =~= docs.take(i as int));
            assert(docs.take(i + 1).last() == docs[i as int]);
        }
        v.insert(k, doc);
        assert(associated_notes(v@) =~= earlier.insert(k as int, doc@));
        i = i + 1;
    }
    assert(docs.take(total as int) =~= docs);
    v
}

/// What a look into the cache comes to.
#[derive(Clone, Copy, PartialEq, Eq, Debug, Structural)]
pub enum CacheRead {
    /// Nothing is cached.
    Missing,
    /// What is cached is a service's credit, not lyrics: it is to be dropped,
    /// and nothing is cached.
    Credit,
    /// Lyrics are cached.
    Lyrics,
}

/// Whether a cached row is a service's credit taken from a file's tag.
pub open spec fn row_is_credit(content: Seq<char>, source: Seq<char>) -> bool {
    source == "embedded"@ && lyrics_tags::is_credit(content)
}

/// What a look into the cache comes to.
pub fn read_cached(row: &Option<LyricsRow>) -> (r: CacheRead)
    ensures
        r == (match row {
            None => CacheRead::Missing,
            Some(row) => if row_is_credit(row.content@, row.source@) {
                CacheRead::Credit
            } else {
                CacheRead::Lyrics
            },
        }),
{
    match row {
        None => CacheRead::Missing,
        Some(row) => {
            if same_text(row.source.as_str(), "embedded") && is_service_blurb(row.content.as_str()) {
                CacheRead::Credit
            } else {
                CacheRead::Lyrics
            }
        },
    }
}

/// What cached lyrics are read as.
pub open spec fn cached_read(track_id: i64, cached: CachedNote) -> PayloadNote {
    PayloadNote {
        track_id,
        content: cached.row.content,
        format: lyrics_format::format_named(cached.row.format),
        source: lyrics_format::source_named(cached.row.source),
        provider: cached.row.provider,
        tag_write_skipped: None,
        sidecar_write_skipped: None,
        associated: in_reading_order(
            cached.associated.map_values(|row: AssociatedRowNote| associated_read(row)),
        ),
    }
}

/// Cached lyrics, as the interface is told them.
pub fn cached_payload(track_id: i64, row: LyricsRow, associated: Vec<AssociatedRow>) -> (r:
    LyricsPayload)
    ensures
        r@ == cached_read(
            track_id,
            (CachedNote { row: row@, associated: row_notes(associated@) }),
        ),
{
    let format = parse_format(row.format.as_str());
    let source = parse_source(row.source.as_str());
    LyricsPayload {
        track_id,
        content: row.content,
        format,
        source,
        provider: row.provider,
        tag_write_skipped: None,
        sidecar_write_skipped: None,
        associated: read_associated(associated),
    }
}

/// A cached answer of one document reads back as it was given.
pub proof fn a_cached_answer_reads_back(
    track_id: i64,
    file_hash: Seq<char>,
    content: Seq<char>,
    format: LyricsFormat,
    source: LyricsSource,
    provider: Option<Seq<char>>,
    now: i64,
)
    ensures
        cached_read(
            track_id,
            (CachedNote {
                row: row_of(file_hash, content, format, source, provider, None, now),
                associated: seq![],
            }),
        ) == single(track_id, content, format, source, provider),
{
    lyrics_format::a_stored_format_reads_back(format);
    lyrics_format::a_stored_source_reads_back(source);
    assert(Seq::<AssociatedRowNote>::empty().map_values(
        |row: AssociatedRowNote| associated_read(row),
    ) =~= seq![]);
}

/// Replacing a file's lyrics ends the bundle that they came with: none of the
/// earlier documents is read beside the new ones, and no other file's lyrics
/// change.
pub proof fn a_write_ends_the_earlier_bundle(
    cache: Map<Seq<char>, CachedNote>,
    write: CacheWrite,
    other: Seq<char>,
)
    requires
        other != write.row.file_hash@,
    ensures
        cache_after(cache, write)[write.row.file_hash@].associated == row_notes(
            write.associated@,
        ),
        cache_after(cache, write).dom().contains(other) == cache.dom().contains(other),
        cache_after(cache, write)[other] == cache[other],
{
}

// What a plugin serves.

/// What a further document of a plugin is.
#[derive(Clone, Copy, PartialEq, Eq, Debug, Structural)]
pub enum AssociatedKind {
    Translation,
    Pronunciation,
}

/// A document as a plugin serves it.
#[derive(PartialEq, Eq, Debug)]
pub struct PluginDocument {
    pub content: String,
    /// What the plugin says that the document is.
    pub format: PluginLyricsFormat,
    pub language: Option<String>,
}

/// A further document as a plugin serves it.
#[derive(PartialEq, Eq, Debug)]
pub struct PluginAssociated {
    pub kind: AssociatedKind,
    pub document: PluginDocument,
}

/// A plugin's answer.
#[derive(PartialEq, Eq, Debug)]
pub struct LyricsBundle {
    pub primary: PluginDocument,
    pub associated: Vec<PluginAssociated>,
}

/// The stored name of a document's kind.
pub open spec fn kind_name(kind: AssociatedKind) -> Seq<char> {
    match kind {
        AssociatedKind::Translation => "translation"@,
        AssociatedKind::Pronunciation => "pronunciation"@,
    }
}

/// A served document as it would be kept.
pub open spec fn kept(a: PluginAssociated) -> AssociatedNote {
    AssociatedNote {
        kind: kind_name(a.kind),
        language: text::opt_text(a.document.language),
        content: a.document.content@,
        format: lyrics_format::plugin_format(a.document.format),
    }
}

/// Whether a served document is what its plugin says that it is.
pub open spec fn is_honest(d: PluginDocument) -> bool {
    lyrics_format::is_what_it_claims(d.content@, lyrics_format::plugin_format(d.format))
}

/// A language, where none counts as the empty one.
pub open spec fn tongue(language: Option<Seq<char>>) -> Seq<char> {
    match language {
        Some(l) => l,
        None => seq![],
    }
}

/// The place that a document fills: its kind and its language.
pub open spec fn slot(a: AssociatedNote) -> (Seq<char>, Seq<char>) {
    (a.kind, tongue(a.language))
}

/// Whether one of the documents fills a place.
pub open spec fn is_filled(docs: Seq<AssociatedNote>, place: (Seq<char>, Seq<char>)) -> bool {
    exists|i: int| 0 <= i < docs.len() && slot(#[trigger] docs[i]) == place
}

/// The documents that are kept of those that a plugin served: the first honest
/// one for each place.
pub open spec fn accepted(served: Seq<PluginAssociated>) -> Seq<AssociatedNote>
    decreases served.len(),
{
    if served.len() == 0 {
        seq![]
    } else {
        let earlier = accepted(served.drop_last());
        let last = served.last();
        if is_honest(last.document) && !is_filled(earlier, slot(kept(last))) {
            earlier.push(kept(last))
        } else {
            earlier
        }
    }
}

/// The stored name of a document's kind.
fn kind_text(kind: AssociatedKind) -> (r: &'static str)
    ensures
        r@ == kind_name(kind),
{
    match kind {
        AssociatedKind::Translation => "translation",
        AssociatedKind::Pronunciation => "pronunciation",
    }
}

/// Whether two documents' languages leave them in the same place.
fn same_language(a: &Option<String>, b: &Option<String>) -> (r: bool)
    ensures
        r == (tongue(text::opt_text(*a)) == tongue(text::opt_text(*b))),
{
    let none = String::new();
    let x = match a {
        Some(l) => l.as_str(),
        None => none.as_str(),
    };
    let y = match b {
        Some(l) => l.as_str(),
        None => none.as_str(),
    };
    same_text(x, y)
}

/// Whether one of the documents fills the place of a document of this kind and
/// language.
fn filled(docs: &Vec<AssociatedLyrics>, kind: &str, language: &Option<String>) -> (r: bool)
    ensures
        r == is_filled(
            associated_notes(docs@),
            (kind@, tongue(text::opt_text(*language))),
        ),
{
    let ghost place = (kind@, tongue(text::opt_text(*language)));
    let total: usize = docs.len();
    let mut i: usize = 0;
    while i < total
        invariant
            total == docs@.len(),
            i <= total,
            place == (kind@, tongue(text::opt_text(*language))),
            forall|j: int| 0 <= j < i ==> slot((#[trigger] docs@[j])@) != place,
        decreases total - i,
    {
        let d = &docs[i];
        if same_text(d.kind.as_str(), kind) && same_language(&d.language, language) {
            assert(slot(associated_notes(docs@)[i as int]) == place);
            return true;
        }
        i = i + 1;
    }
    assert forall|j: int| 0 <= j < associated_notes(docs@).len() implies slot(
        #[trigger] associated_notes(docs@)[j],
    ) != place by {
        assert(slot(docs@[j]@) != place);
    }
    false
}

/// The documents that are kept of those that a plugin served.
pub fn accepted_associated(served: &Vec<PluginAssociated>) -> (v: Vec<AssociatedLyrics>)
    ensures
        associated_notes(v@) == accepted(served@),
{
    let mut v: Vec<AssociatedLyrics> = Vec::new();
    let total: usize = served.len();
    let mut i: usize = 0;
    assert(associated_notes(v@) =~= accepted(served@.take(0)));
    while i < total
        invariant
            total == served@.len(),
            i <= total,
            associated_notes(v@) == accepted(served@.take(i as int)),
        decreases total - i,
    {
        let a = &served[i];
        assert(served@.take(i + 1).drop_last() =~= served@.take(i as int));
        let format = plugin_format_to_app(a.document.format);
        let kind = kind_text(a.kind);
        if document_is_what_it_claims(a.document.content.as_str(), format)
            && !filled(&v, kind, &a.document.language) {
            let doc = AssociatedLyrics {
                kind: kind.to_owned(),
                language: clone_opt(&a.document.language),
                content: a.document.content.clone(),
                format,
            };
            assert(doc@ == kept(*a));
            let ghost earlier = v@;
            v.push(doc);
            assert(associated_notes(v@) =~= associated_notes(earlier).push(doc@));
        }
        i = i + 1;
    }
    assert(served@.take(total as int) =~= served@);
    v
}

/// Among the documents that are kept no two fill the same place.
pub proof fn no_two_kept_documents_share_a_place(served: Seq<PluginAssociated>)
    ensures
        forall|i: int, j: int|
            0 <= i < j < accepted(served).len() ==> slot(#[trigger] accepted(served)[i]) != slot(
                #[trigger] accepted(served)[j],
            ),
    decreases served.len(),
{
    if served.len() > 0 {
        no_two_kept_documents_share_a_place(served.drop_last());
        let earlier = accepted(served.drop_last());
        let all = accepted(served);
        assert forall|i: int, j: int| 0 <= i < j < all.len() implies slot(#[trigger] all[i]) != slot(
            #[trigger] all[j],
        ) by {
            assert(all[i] == earlier[i]);
            if j < earlier.len() {
                assert(all[j] == earlier[j]);
            }
        }
    }
}

/// Every document that is kept is what its plugin said that it was.
pub proof fn every_kept_document_is_honest(served: Seq<PluginAssociated>)
    ensures
        forall|i: int|
            0 <= i < accepted(served).len() ==> lyrics_format::is_what_it_claims(
                (#[trigger] accepted(served)[i]).content,
                accepted(served)[i].format,
            ),
    decreases served.len(),
{
    if served.len() > 0 {
        every_kept_document_is_honest(served.drop_last());
    }
}

/// A wrong document costs itself alone: every place that an honest document was
/// served for is filled.
pub proof fn no_honest_place_is_lost(served: Seq<PluginAssociated>, k: int)
    requires
        0 <= k < served.len(),
        is_honest(served[k].document),
    ensures
        is_filled(accepted(served), slot(kept(served[k]))),
    decreases served.len(),
{
    let place = slot(kept(served[k]));
    let earlier = accepted(served.drop_last());
    if k == served.len() - 1 {
        if !is_filled(earlier, place) {
            assert(slot(accepted(served)[earlier.len() as int]) == place);
        }
    } else {
        assert(served.drop_last()[k] == served[k]);
        no_honest_place_is_lost(served.drop_last(), k);
        let i = choose|i: int| 0 <= i < earlier.len() && slot(#[trigger] earlier[i]) == place;
        assert(slot(accepted(served)[i]) == place);
    }
}

/// The stored form of a document that the interface is told.
pub open spec fn associated_row(a: AssociatedNote) -> AssociatedRowNote {
    AssociatedRowNote {
        kind: a.kind,
        language: a.language,
        content: a.content,
        format: lyrics_format::format_name(a.format),
    }
}

fn associated_rows(docs: &Vec<AssociatedLyrics>) -> (v: Vec<AssociatedRow>)
    ensures
        row_notes(v@) == associated_notes(docs@).map_values(
            |a: AssociatedNote| associated_row(a),
        ),
{
    let mut v: Vec<AssociatedRow> = Vec::new();
    let total: usize = docs.len();
    let mut i: usize = 0;
    while i < total
        invariant
            total == docs@.len(),
            i <= total,
            v@.len() == i,
            forall|j: int| 0 <= j < i ==> (#[trigger] v@[j])@ == associated_row(docs@[j]@),
        decreases total - i,
    {
        let d = &docs[i];
        v.push(
            AssociatedRow {
                kind: d.kind.clone(),
                language: clone_opt(&d.language),
                content: d.content.clone(),
                format: format_to_db(&d.format).to_owned(),
            },
        );
        i = i + 1;
    }
    assert(row_notes(v@) =~= associated_notes(docs@).map_values(
        |a: AssociatedNote| associated_row(a),
    ));
    v
}

/// What the interface is told of a plugin's answer.
pub open spec fn bundle_payload(
    track_id: i64,
    bundle: LyricsBundle,
    plugin_id: Seq<char>,
) -> PayloadNote {
    PayloadNote {
        track_id,
        content: bundle.primary.content@,
        format: lyrics_format::plugin_format(bundle.primary.format),
        source: LyricsSource::Api,
        provider: Some("plugin:"@ + plugin_id),
        tag_write_skipped: None,
        sidecar_write_skipped: None,
        associated: accepted(bundle.associated@),
    }
}

/// What the cache holds of a plugin's answer.
pub open spec fn bundle_cached(
    file_hash: Seq<char>,
    bundle: LyricsBundle,
    plugin_id: Seq<char>,
    now: i64,
) -> CachedNote {
    CachedNote {
        row: row_of(
            file_hash,
            bundle.primary.content@,
            lyrics_format::plugin_format(bundle.primary.format),
            LyricsSource::Api,
            Some("plugin:"@ + plugin_id),
            text::opt_text(bundle.primary.language),
            now,
        ),
        associated: accepted(bundle.associated@).map_values(|a: AssociatedNote| associated_row(a)),
    }
}

/// What a plugin's answer comes to: what goes into the cache and what the
/// interface is told, unless the lyrics themselves are not what the plugin says
/// that they are.
pub fn cache_lyrics_bundle(
    track_id: i64,
    file_hash: &str,
    bundle: &LyricsBundle,
    plugin_id: &str,
    now: i64,
) -> (r: Option<(CacheWrite, LyricsPayload)>)
    ensures
        r is Some <==> is_honest(bundle.primary),
        r matches Some((w, p)) ==> {
            &&& w@ == bundle_cached(file_hash@, *bundle, plugin_id@, now)
            &&& p@ == bundle_payload(track_id, *bundle, plugin_id@)
        },
{
    let format = plugin_format_to_app(bundle.primary.format);
    if !document_is_what_it_claims(bundle.primary.content.as_str(), format) {
        return None;
    }
    let associated = accepted_associated(&bundle.associated);
    let provider = around(PLUGIN_PROVIDER_PREFIX, plugin_id, "");
    proof {
        reveal_strlit("");
        assert(provider@ =~= "plugin:"@ + plugin_id@);
    }
    let source = LyricsSource::Api;
    let row = write_primary_lyrics(
        file_hash,
        bundle.primary.content.as_str(),
        &format,
        &source,
        Some(provider.clone()),
        clone_opt(&bundle.primary.language),
        now,
    );
    let write = CacheWrite { row, associated: associated_rows(&associated) };
    let told = LyricsPayload {
        track_id,
        content: bundle.primary.content.clone(),
        format,
        source,
        provider: Some(provider),
        tag_write_skipped: None,
        sidecar_write_skipped: None,
        associated,
    };
    Some((write, told))
}

/// A cached answer of a plugin reads back as it was given, its further documents by
/// kind and language.
pub proof fn a_cached_bundle_reads_back(
    track_id: i64,
    file_hash: Seq<char>,
    bundle: LyricsBundle,
    plugin_id: Seq<char>,
    now: i64,
)
    ensures
        cached_read(track_id, bundle_cached(file_hash, bundle, plugin_id, now)) == (PayloadNote {
            associated: in_reading_order(accepted(bundle.associated@)),
            ..bundle_payload(track_id, bundle, plugin_id)
        }),
{
    lyrics_format::a_stored_format_reads_back(lyrics_format::plugin_format(bundle.primary.format));
    lyrics_format::a_stored_source_reads_back(LyricsSource::Api);
    let docs = accepted(bundle.associated@);
    let rows = docs.map_values(|a: AssociatedNote| associated_row(a));
    let read = rows.map_values(|row: AssociatedRowNote| associated_read(row));
    assert forall|i: int| 0 <= i < docs.len() implies read[i] == docs[i] by {
        lyrics_format::a_stored_format_reads_back(docs[i].format);
    }
    assert(read =~= docs);
}

/// How long a plugin may take to answer, in seconds.
pub const LYRICS_PLUGIN_TIMEOUT_SECS: u64 = 20;

/// What came back from a plugin that was asked for lyrics.
#[derive(PartialEq, Eq, Debug)]
pub struct PluginReply {
    pub plugin_id: String,
    /// Its answer; none where it has nothing, failed or took too long.
    pub bundle: Option<LyricsBundle>,
}

/// Whether what came back can be used: lyrics that are what the plugin says that
/// they are.
pub open spec fn is_usable(reply: PluginReply) -> bool {
    reply.bundle matches Some(b) && is_honest(b.primary)
}

/// Which of the replies stands, in the order in which they came: the first that can be
/// used.
pub open spec fn first_usable(replies: Seq<PluginReply>) -> Option<int>
    decreases replies.len(),
{
    if replies.len() == 0 {
        None
    } else {
        match first_usable(replies.drop_last()) {
            Some(i) => Some(i),
            None => if is_usable(replies.last()) {
                Some(replies.len() - 1)
            } else {
                None
            },
        }
    }
}

/// The plugin's answer that stands: which reply it is, what goes into the cache, and
/// what the interface is told.
#[derive(PartialEq, Eq, Debug)]
pub struct PluginAnswer {
    pub reply: usize,
    pub write: CacheWrite,
    pub payload: LyricsPayload,
}

/// The answer that stands of those that plugins gave, in the order in which they
/// came. One that cannot be used is passed over.
pub fn first_plugin_answer(
    track_id: i64,
    file_hash: &str,
    replies: &Vec<PluginReply>,
    now: i64,
) -> (r: Option<PluginAnswer>)
    ensures
        match first_usable(replies@) {
            None => r is None,
            Some(i) => {
                &&& r matches Some(a)
                &&& a.reply == i
                &&& a.write@ == bundle_cached(
                    file_hash@,
                    replies@[i].bundle->0,
                    replies@[i].plugin_id@,
                    now,
                )
                &&& a.payload@ == bundle_payload(
                    track_id,
                    replies@[i].bundle->0,
                    replies@[i].plugin_id@,
                )
            },
        },
{
    let mut i: usize = 0;
    assert(replies@.take(0) =~= Seq::empty());
    while i < replies.len()
        invariant
            i <= replies@.len(),
            first_usable(replies@.take(i as int)) is None,
        decreases replies@.len() - i,
    {
        let ghost here = replies@.take(i + 1);
        assert(here.drop_last() =~= replies@.take(i as int));
        assert(here.last() == replies@[i as int]);
        let reply = &replies[i];
        if let Some(bundle) = &reply.bundle {
            let kept = cache_lyrics_bundle(
                track_id,
                file_hash,
                bundle,
                reply.plugin_id.as_str(),
                now,
            );
            if let Some((write, payload)) = kept {
                proof {
                    the_first_usable_answer_stands(replies@, i + 1);
                }
                return Some(PluginAnswer { reply: i, write, payload });
            }
        }
        i = i + 1;
    }
    assert(replies@.take(i as int) =~= replies@);
    None
}

/// The first usable answer stands whatever comes after it, it can be used, and every
/// one that came before it cannot. There is one where any can be used.
pub proof fn the_first_usable_answer_stands(replies: Seq<PluginReply>, n: int)
    requires
        0 <= n <= replies.len(),
    ensures
        first_usable(replies.take(n)) matches Some(i) ==> {
            &&& first_usable(replies) == Some(i)
            &&& 0 <= i < n
            &&& is_usable(replies[i])
            &&& forall|j: int| 0 <= j < i ==> !is_usable(#[trigger] replies[j])
        },
        first_usable(replies) is None ==> forall|j: int|
            0 <= j < replies.len() ==> !is_usable(#[trigger] replies[j]),
    decreases replies.len(),
{
    if replies.len() > 0 {
        let rest = replies.drop_last();
        if n < replies.len() {
            assert(rest.take(n) =~= replies.take(n));
            the_first_usable_answer_stands(rest, n);
            if let Some(i) = first_usable(replies.take(n)) {
                assert(rest[i] == replies[i]);
                assert forall|j: int| 0 <= j < i implies !is_usable(#[trigger] replies[j]) by {
                    assert(rest[j] == replies[j]);
                }
            }
        } else {
            assert(replies.take(n) =~= replies);
            the_first_usable_answer_stands(rest, rest.len() as int);
            assert(rest.take(rest.len() as int) =~= rest);
            if let Some(i) = first_usable(replies) {
                if i < rest.len() {
                    assert(rest[i] == replies[i]);
                }
                assert forall|j: int| 0 <= j < i implies !is_usable(#[trigger] replies[j]) by {
                    assert(rest[j] == replies[j]);
                }
            }
        }
        if first_usable(replies) is None {
            assert forall|j: int| 0 <= j < replies.len() implies !is_usable(
                #[trigger] replies[j],
            ) by {
                if j < rest.len() {
                    assert(rest[j] == replies[j]);
                }
            }
        }
    } else {
        assert(replies.take(n) =~= replies);
    }
}

// Asking the providers.

/// What an external provider found.
#[derive(PartialEq, Eq, Debug)]
pub struct ExternalLyricsResult {
    pub content: String,
    pub format: ExternalLyricsFormat,
    pub provider: Provider,
}

/// Which lyrics a search is after.
#[derive(Clone, Copy, PartialEq, Eq, Debug, Structural)]
pub enum SearchMode {
    SyncedOnly,
    PreferSynced,
}

/// What a search asks for: the title, and the first of the artists where there
/// is one.
pub open spec fn query_text(title: Seq<char>, artist: Option<Seq<char>>) -> Seq<char> {
    match artist {
        Some(a) if !text::is_blank(a) => title + " "@ + text::before_part(a, "; "@),
        _ => title,
    }
}

/// What a search asks for.
pub fn external_query(title: &str, artist_name: &Option<String>) -> (r: String)
    ensures
        r@ == query_text(title@, text::opt_text(*artist_name)),
{
    match artist_name {
        Some(artist) => {
            if blank(artist.as_str()) {
                title.to_owned()
            } else {
                around(title, " ", before(artist.as_str(), "; ").as_str())
            }
        },
        None => title.to_owned(),
    }
}

/// A search to be made, or none.
#[derive(PartialEq, Eq, Debug)]
pub enum SearchPlan {
    /// Nothing may be asked, or nobody is left to ask.
    Unavailable,
    /// These providers are asked for this, with this language of translation.
    Ask { query: String, providers: Vec<Provider>, lang: Option<String> },
}

/// The search to be made: none while the network is off or once nobody is left
/// to ask. The language of a translation goes to Musixmatch alone.
pub fn external_lyrics_search(
    title: &str,
    artist_name: &Option<String>,
    providers: &Vec<Provider>,
    lang: &Option<String>,
    offline: bool,
    musixmatch: bool,
) -> (r: SearchPlan)
    ensures
        r is Unavailable <==> offline || lyrics_providers::opted_in(providers@, musixmatch).len()
            == 0,
        r matches SearchPlan::Ask { query, providers: asked, lang: spoken } ==> {
            &&& query@ == query_text(title@, text::opt_text(*artist_name))
            &&& asked@ == lyrics_providers::opted_in(providers@, musixmatch)
            &&& spoken == (if asked@.contains(Provider::Musixmatch) {
                *lang
            } else {
                None
            })
        },
{
    if offline {
        return SearchPlan::Unavailable;
    }
    let asked = filter_providers(providers, musixmatch);
    if asked.len() == 0 {
        return SearchPlan::Unavailable;
    }
    let spoken = if list_has_provider(&asked, Provider::Musixmatch) {
        clone_opt(lang)
    } else {
        None
    };
    SearchPlan::Ask { query: external_query(title, artist_name), providers: asked, lang: spoken }
}

/// What an external provider's lyrics come to: what goes into the cache and what
/// the interface is told.
pub fn cache_external_lyrics(
    track_id: i64,
    file_hash: &str,
    result: ExternalLyricsResult,
    now: i64,
) -> (r: (CacheWrite, LyricsPayload))
    ensures
        r.0@ == (CachedNote {
            row: row_of(
                file_hash@,
                result.content@,
                lyrics_format::external_as_app(result.format),
                LyricsSource::Api,
                Some(lyrics_providers::provider_id(result.provider)),
                None,
                now,
            ),
            associated: seq![],
        }),
        r.1@ == single(
            track_id,
            result.content@,
            lyrics_format::external_as_app(result.format),
            LyricsSource::Api,
            Some(lyrics_providers::provider_id(result.provider)),
        ),
{
    let format = external_format_to_app(result.format);
    answer(track_id, file_hash, result.content, format, Some(result.provider), now)
}

/// A provider's stored name, where there is a provider.
pub open spec fn opt_provider(p: Option<Provider>) -> Option<Seq<char>> {
    match p {
        Some(p) => Some(lyrics_providers::provider_id(p)),
        None => None,
    }
}

fn provider_text(p: Option<Provider>) -> (r: Option<String>)
    ensures
        text::opt_text(r) == opt_provider(p),
{
    match p {
        Some(p) => Some(p.as_str().to_owned()),
        None => None,
    }
}

/// An answer off the network, for the cache and for the interface.
pub fn answer(
    track_id: i64,
    file_hash: &str,
    content: String,
    format: LyricsFormat,
    provider: Option<Provider>,
    now: i64,
) -> (r: (CacheWrite, LyricsPayload))
    ensures
        r.0@ == (CachedNote {
            row: row_of(
                file_hash@,
                content@,
                format,
                LyricsSource::Api,
                opt_provider(provider),
                None,
                now,
            ),
            associated: seq![],
        }),
        r.1@ == single(track_id, content@, format, LyricsSource::Api, opt_provider(provider)),
{
    let source = LyricsSource::Api;
    let write = upsert_lyrics(
        file_hash,
        content.as_str(),
        &format,
        &source,
        provider_text(provider),
        now,
    );
    (write, payload(track_id, content, format, source, provider_text(provider)))
}

/// The remembered negative: an empty plain answer, so that the network is not
/// asked again, with the provider that gave it where one did.
pub fn cache_lyrics_miss(
    track_id: i64,
    file_hash: &str,
    provider: Option<Provider>,
    now: i64,
) -> (r: (CacheWrite, LyricsPayload))
    ensures
        r.0@ == (CachedNote {
            row: row_of(
                file_hash@,
                seq![],
                LyricsFormat::Plain,
                LyricsSource::Api,
                opt_provider(provider),
                None,
                now,
            ),
            associated: seq![],
        }),
        r.1@ == single(
            track_id,
            seq![],
            LyricsFormat::Plain,
            LyricsSource::Api,
            opt_provider(provider),
        ),
{
    answer(track_id, file_hash, String::new(), LyricsFormat::Plain, provider, now)
}

/// A track as LRCLIB is asked for it.
#[derive(PartialEq, Eq, Debug)]
pub struct LrclibQuery {
    pub artist: String,
    pub title: String,
    pub album: Option<String>,
    pub duration_seconds: u64,
}

/// The whole seconds that a length takes up, counting a begun one.
pub open spec fn seconds_up(ms: int) -> int {
    if ms <= 0 {
        0
    } else {
        (ms + 999) / 1000
    }
}

/// How LRCLIB is asked for a track; a track without an artist it cannot be
/// asked for.
pub fn lrclib_query(meta: &TrackMeta) -> (r: Option<LrclibQuery>)
    ensures
        match r {
            None => meta.artist_name is None,
            Some(q) => {
                &&& meta.artist_name matches Some(a) && q.artist@ == text::before_part(a@, "; "@)
                &&& q.title@ == meta.title@
                &&& q.album == meta.album_title
                &&& q.duration_seconds == seconds_up(meta.duration_ms as int)
            },
        },
{
    match &meta.artist_name {
        None => None,
        Some(artist) => {
            let ms: u64 = if meta.duration_ms < 0 {
                0
            } else {
                meta.duration_ms as u64
            };
            Some(
                LrclibQuery {
                    artist: before(artist.as_str(), "; "),
                    title: meta.title.clone(),
                    album: clone_opt(&meta.album_title),
                    duration_seconds: (ms + 999) / 1000,
                },
            )
        },
    }
}

/// What LRCLIB serves for a track.
#[derive(PartialEq, Eq, Debug)]
pub struct LrclibAnswer {
    pub instrumental: Option<bool>,
    pub synced_lyrics: Option<String>,
    pub plain_lyrics: Option<String>,
}

/// What LRCLIB's answer comes to.
#[derive(PartialEq, Eq, Debug)]
pub enum LrclibPick {
    /// The track has no words.
    Instrumental,
    /// These are the words.
    Lyrics(String, LyricsFormat),
    /// The answer says nothing.
    Empty,
}

/// Whether an optional text says something.
pub open spec fn says_something(o: Option<String>) -> bool {
    o matches Some(t) && !text::is_blank(t@)
}

/// What LRCLIB's answer comes to: timed lyrics before plain ones.
pub fn lrclib_pick(served: LrclibAnswer) -> (r: LrclibPick)
    ensures
        r == (if served.instrumental == Some(true) {
            LrclibPick::Instrumental
        } else if says_something(served.synced_lyrics) {
            LrclibPick::Lyrics(served.synced_lyrics->0, LyricsFormat::Lrc)
        } else if says_something(served.plain_lyrics) {
            LrclibPick::Lyrics(served.plain_lyrics->0, LyricsFormat::Plain)
        } else {
            LrclibPick::Empty
        }),
{
    if let Some(true) = served.instrumental {
        return LrclibPick::Instrumental;
    }
    if let Some(s) = served.synced_lyrics {
        if !blank(s.as_str()) {
            return LrclibPick::Lyrics(s, LyricsFormat::Lrc);
        }
    }
    if let Some(p) = served.plain_lyrics {
        if !blank(p.as_str()) {
            return LrclibPick::Lyrics(p, LyricsFormat::Plain);
        }
    }
    LrclibPick::Empty
}

// Asking again.

/// Whom a request for fresh lyrics is addressed to.
#[derive(PartialEq, Eq, Debug)]
pub enum RefetchPlan {
    /// Everyone, in turn.
    Waterfall,
    /// The plugin with this id, and nobody else.
    Plugin(String),
    /// This provider, and nobody else.
    Provider(Provider),
    /// Nobody: the one that is named cannot be reached offline.
    Nobody,
}

/// Whom a request for fresh lyrics is addressed to, by the name that it gives. A
/// request that names one is for nobody offline; one that names none goes round as
/// every lookup does, which finds its own way offline.
pub fn refetch_lyrics(provider: &Option<String>, offline: bool) -> (r: Result<
    RefetchPlan,
    AppError,
>)
    ensures
        match *provider {
            None => r == Ok::<RefetchPlan, AppError>(RefetchPlan::Waterfall),
            Some(name) => if "plugin:"@.is_prefix_of(name@) {
                if offline {
                    r == Ok::<RefetchPlan, AppError>(RefetchPlan::Nobody)
                } else {
                    r matches Ok(RefetchPlan::Plugin(id)) && name@ == "plugin:"@ + id@
                }
            } else {
                match lyrics_providers::provider_named(name@) {
                    Some(p) => r == Ok::<RefetchPlan, AppError>(
                        if offline {
                            RefetchPlan::Nobody
                        } else {
                            RefetchPlan::Provider(p)
                        },
                    ),
                    None => r matches Err(e) && error::says(
                        e,
                        "unknown lyrics provider: "@ + name@,
                    ),
                }
            },
        },
{
    match provider {
        None => Ok(RefetchPlan::Waterfall),
        Some(name) => {
            let c = text::chars_of(name.as_str());
            if text::begins_with(&c, PLUGIN_PROVIDER_PREFIX) {
                if offline {
                    return Ok(RefetchPlan::Nobody);
                }
                proof {
                    reveal_strlit("plugin:");
                }
                let id = text::string_of(&c, 7, c.len());
                assert(name@ =~= "plugin:"@ + id@);
                Ok(RefetchPlan::Plugin(id))
            } else {
                match Provider::from_id(name.as_str()) {
                    Some(p) => if offline {
                        Ok(RefetchPlan::Nobody)
                    } else {
                        Ok(RefetchPlan::Provider(p))
                    },
                    None => {
                        let m = around("unknown lyrics provider: ", name.as_str(), "");
                        proof {
                            reveal_strlit("");
                            assert(m@ =~= "unknown lyrics provider: "@ + name@);
                        }
                        Err(AppError::Other(m))
                    },
                }
            }
        },
    }
}

/// A cached plugin answer names the plugin that is asked again for it.
pub proof fn a_plugin_answer_is_asked_of_its_plugin(id: Seq<char>)
    ensures
        "plugin:"@.is_prefix_of("plugin:"@ + id),
        lyrics_providers::provider_named("plugin:"@ + id) is None,
{
    reveal_strlit("plugin:");
    reveal_strlit("lrclib");
    reveal_strlit("genius");
    reveal_strlit("net_ease");
    reveal_strlit("megalobiz");
    reveal_strlit("musixmatch");
    let name = "plugin:"@ + id;
    assert(name[0] == 'p');
    assert("lrclib"@[0] == 'l');
    assert("genius"@[0] == 'g');
    assert("net_ease"@[0] == 'n');
    assert("megalobiz"@[0] == 'm');
    assert("musixmatch"@[0] == 'm');
}

/// The texts that are the wanted one.
pub open spec fn is_text(wanted: Seq<char>) -> spec_fn(Seq<char>) -> bool {
    |t: Seq<char>| t == wanted
}

/// The plugins that are asked: all of them, or the wanted one where it is among
/// them.
pub open spec fn wanted_of(ids: Seq<Seq<char>>, only: Option<Seq<char>>) -> Seq<Seq<char>> {
    match only {
        Some(wanted) => ids.filter(is_text(wanted)),
        None => ids,
    }
}

/// The plugins that are asked.
pub fn try_plugin_lyrics(ids: Vec<String>, only: &Option<String>) -> (v: Vec<String>)
    ensures
        text::texts(v@) == wanted_of(text::texts(ids@), text::opt_text(*only)),
{
    match only {
        None => ids,
        Some(wanted) => {
            let ghost keep = is_text(wanted@);
            let ghost all = text::texts(ids@);
            let mut v: Vec<String> = Vec::new();
            let total: usize = ids.len();
            let mut i: usize = 0;
            proof {
                reveal(Seq::filter);
                assert(text::texts(v@) =~= all.take(0).filter(keep));
            }
            while i < total
                invariant
                    total == ids@.len(),
                    i <= total,
                    all == text::texts(ids@),
                    keep == is_text(wanted@),
                    text::texts(v@) == all.take(i as int).filter(keep),
                decreases total - i,
            {
                proof {
                    reveal(Seq::filter);
                    assert(all.take(i + 1).drop_last() =~= all.take(i as int));
                    assert(all.take(i + 1).last() == ids@[i as int]@);
                }
                if same_text(ids[i].as_str(), wanted.as_str()) {
                    let ghost earlier = v@;
                    v.push(ids[i].clone());
                    assert(text::texts(v@) =~= text::texts(earlier).push(ids@[i as int]@));
                }
                i = i + 1;
            }
            assert(all.take(total as int) =~= all);
            v
        },
    }
}

// Lyrics from a file that the user names.

/// The error for a track that is not there.
pub fn track_not_found(track_id: i64) -> (e: AppError)
    ensures
        error::says(e, "track "@ + decimal::int_text(track_id as int) + " not found"@),
{
    AppError::Other(around("track ", i64_text(track_id).as_str(), " not found"))
}

/// The lyrics of an imported file, trimmed, for the cache and for the
/// interface.
pub fn import_lrc_file(track_id: i64, file_hash: &str, content: &str, now: i64) -> (r: Result<
    (CacheWrite, LyricsPayload),
    AppError,
>)
    ensures
        r is Err <==> text::is_blank(content@),
        r matches Err(e) ==> error::says(e, "imported lyrics file is empty"@),
        r matches Ok((w, p)) ==> {
            let words = text::trimmed(content@);
            let format = lyrics_format::sniffed(words);
            &&& w@ == (CachedNote {
                row: row_of(file_hash@, words, format, LyricsSource::LrcFile, None, None, now),
                associated: seq![],
            })
            &&& p@ == single(track_id, words, format, LyricsSource::LrcFile, None)
        },
{
    if blank(content) {
        return Err(AppError::Other("imported lyrics file is empty".to_owned()));
    }
    let words = content.trim();
    let source = LyricsSource::LrcFile;
    let told = local_payload(track_id, words.to_owned(), source);
    let write = upsert_lyrics(file_hash, words, &told.format, &source, None, now);
    Ok((write, told))
}

// What is told and what is kept, field by field.

/// An answer of one document is told with its own track, words, format, source and
/// provider, and a row keeps them under the names of its format and its source.
pub proof fn an_answer_keeps_its_fields(
    track_id: i64,
    file_hash: Seq<char>,
    content: Seq<char>,
    format: LyricsFormat,
    source: LyricsSource,
    provider: Option<Seq<char>>,
    language: Option<Seq<char>>,
    now: i64,
)
    ensures
        single(track_id, content, format, source, provider).track_id == track_id,
        single(track_id, content, format, source, provider).content == content,
        single(track_id, content, format, source, provider).format == format,
        single(track_id, content, format, source, provider).source == source,
        single(track_id, content, format, source, provider).provider == provider,
        single(track_id, content, format, source, provider).tag_write_skipped is None,
        single(track_id, content, format, source, provider).sidecar_write_skipped is None,
        single(track_id, content, format, source, provider).associated.len() == 0,
        row_of(file_hash, content, format, source, provider, language, now).file_hash == file_hash,
        row_of(file_hash, content, format, source, provider, language, now).content == content,
        row_of(file_hash, content, format, source, provider, language, now).provider == provider,
        row_of(file_hash, content, format, source, provider, language, now).language == language,
        row_of(file_hash, content, format, source, provider, language, now).fetched_at == now,
        lyrics_format::format_named(
            row_of(file_hash, content, format, source, provider, language, now).format,
        ) == format,
        lyrics_format::source_named(
            row_of(file_hash, content, format, source, provider, language, now).source,
        ) == source,
{
    lyrics_format::a_stored_format_reads_back(format);
    lyrics_format::a_stored_source_reads_back(source);
}

/// What is read from the cache is the row's own words and provider, in the format and from
/// the source that its names stand for.
pub proof fn what_is_cached_is_read(track_id: i64, cached: CachedNote)
    ensures
        cached_read(track_id, cached).track_id == track_id,
        cached_read(track_id, cached).content == cached.row.content,
        cached_read(track_id, cached).provider == cached.row.provider,
        cached_read(track_id, cached).format == lyrics_format::format_named(cached.row.format),
        cached_read(track_id, cached).source == lyrics_format::source_named(cached.row.source),
        cached_read(track_id, cached).associated.len() == cached.associated.len(),
        cached_read(track_id, cached).tag_write_skipped is None,
        cached_read(track_id, cached).sidecar_write_skipped is None,
{
    let docs = cached.associated.map_values(|row: AssociatedRowNote| associated_read(row));
    lemma_order_len(docs);
}

proof fn lemma_order_len(docs: Seq<AssociatedNote>)
    ensures
        in_reading_order(docs).len() == docs.len(),
    decreases docs.len(),
{
    if docs.len() > 0 {
        let earlier = in_reading_order(docs.drop_last());
        lemma_order_len(docs.drop_last());
        lemma_place_within(earlier, docs.last());
    }
}

proof fn lemma_place_within(docs: Seq<AssociatedNote>, a: AssociatedNote)
    ensures
        0 <= reading_place(docs, a) <= docs.len(),
    decreases docs.len(),
{
    if docs.len() > 0 && !read_before(a, docs[0]) {
        lemma_place_within(docs.drop_first(), a);
    }
}

/// A further document is read with its own kind, language and words, and stored with them.
pub proof fn a_document_keeps_its_fields(row: AssociatedRowNote, a: AssociatedNote)
    ensures
        associated_read(row).kind == row.kind && associated_read(row).language == row.language
            && associated_read(row).content == row.content,
        associated_read(row).format == lyrics_format::format_named(row.format),
        associated_row(a).kind == a.kind && associated_row(a).language == a.language
            && associated_row(a).content == a.content,
        associated_read(associated_row(a)) == a,
{
    lyrics_format::a_stored_format_reads_back(a.format);
}

/// Documents are read by kind first, then those without a language, then by language.
pub proof fn kinds_go_before_languages(a: AssociatedNote, b: AssociatedNote)
    ensures
        text::precedes(a.kind, b.kind) ==> read_before(a, b) && !read_before(b, a),
        a.kind == b.kind && a.language is None && b.language is Some ==> read_before(a, b)
            && !read_before(b, a),
        a.kind == b.kind && a.language is Some && b.language is Some ==> (read_before(a, b)
            <==> text::precedes(a.language->0, b.language->0)),
        a.kind == b.kind && a.language is None && b.language is None ==> !read_before(a, b),
{
    text::lemma_one_before(a.kind, b.kind);
    text::lemma_not_before_itself(a.kind);
}

/// A cached row is a service's credit only where it came from a file's own tag.
pub proof fn only_a_tag_holds_a_credit(content: Seq<char>, source: Seq<char>)
    ensures
        source != "embedded"@ ==> !row_is_credit(content, source),
        row_is_credit(content, "embedded"@) == lyrics_tags::is_credit(content),
{
}

/// A plugin's document is kept with its own words and language, under the name of its kind
/// and in the format that the plugin says.
pub proof fn a_served_document_is_kept_as_it_is(a: PluginAssociated)
    ensures
        kept(a).content == a.document.content@,
        kept(a).language == text::opt_text(a.document.language),
        a.kind == AssociatedKind::Translation ==> kept(a).kind == "translation"@,
        a.kind == AssociatedKind::Pronunciation ==> kept(a).kind == "pronunciation"@,
        kept(a).format == lyrics_format::plugin_format(a.document.format),
        is_honest(a.document) <==> !text::is_blank(a.document.content@) && lyrics_format::sniffed(
            a.document.content@,
        ) == lyrics_format::plugin_format(a.document.format),
{
}

/// Two documents fill the same place exactly where their kinds are the same and their
/// languages are; none is the empty language.
pub proof fn a_place_is_a_kind_and_a_language(a: AssociatedNote, b: AssociatedNote, l: Seq<char>)
    ensures
        a.kind != b.kind ==> slot(a) != slot(b),
        a.kind == b.kind && a.language == b.language ==> slot(a) == slot(b),
        a.language is Some && b.language is Some && a.language != b.language ==> slot(a) != slot(b),
        tongue(Some(l)) == l,
        tongue(None) == Seq::<char>::empty(),
{
}

/// The first honest document for a place is the one that is kept, whatever comes after it.
pub proof fn the_first_honest_document_is_kept(served: Seq<PluginAssociated>, k: int)
    requires
        0 <= k < served.len(),
        is_honest(served[k].document),
        forall|j: int|
            0 <= j < k && is_honest((#[trigger] served[j]).document) ==> slot(kept(served[j])) != slot(
                kept(served[k]),
            ),
    ensures
        accepted(served).contains(kept(served[k])),
    decreases served.len(),
{
    let rest = served.drop_last();
    let earlier = accepted(rest);
    if k < rest.len() {
        assert forall|j: int| 0 <= j < k && is_honest((#[trigger] rest[j]).document) implies slot(
            kept(rest[j]),
        ) != slot(kept(rest[k])) by {
            assert(rest[j] == served[j]);
        }
        the_first_honest_document_is_kept(rest, k);
        let i = choose|i: int| 0 <= i < earlier.len() && earlier[i] == kept(served[k]);
        assert(accepted(served)[i] == kept(served[k]));
    } else {
        lemma_filled_by_earlier(rest, slot(kept(served[k])));
        if is_filled(earlier, slot(kept(served[k]))) {
            let j = choose|j: int|
                0 <= j < rest.len() && is_honest((#[trigger] rest[j]).document) && slot(
                    kept(rest[j]),
                ) == slot(kept(served[k]));
            assert(rest[j] == served[j]);
        }
        assert(accepted(served)[earlier.len() as int] == kept(served[k]));
    }
}

proof fn lemma_filled_by_earlier(served: Seq<PluginAssociated>, place: (Seq<char>, Seq<char>))
    ensures
        is_filled(accepted(served), place) ==> exists|j: int|
            0 <= j < served.len() && is_honest((#[trigger] served[j]).document) && slot(
                kept(served[j]),
            ) == place,
    decreases served.len(),
{
    if served.len() > 0 && is_filled(accepted(served), place) {
        let rest = served.drop_last();
        let earlier = accepted(rest);
        lemma_filled_by_earlier(rest, place);
        let i = choose|i: int|
            0 <= i < accepted(served).len() && slot(#[trigger] accepted(served)[i]) == place;
        if i < earlier.len() {
            assert(earlier[i] == accepted(served)[i]);
            let j = choose|j: int|
                0 <= j < rest.len() && is_honest((#[trigger] rest[j]).document) && slot(
                    kept(rest[j]),
                ) == place;
            assert(rest[j] == served[j]);
        } else {
            assert(served[served.len() - 1] == served.last());
        }
    }
}

/// Documents are kept in the order in which they were served: one more changes nothing of
/// those before it.
pub proof fn kept_documents_stay_in_order(served: Seq<PluginAssociated>, a: PluginAssociated)
    ensures
        accepted(served).is_prefix_of(accepted(served.push(a))),
        accepted(served.push(a)).len() <= accepted(served).len() + 1,
        accepted(Seq::<PluginAssociated>::empty()).len() == 0,
{
    assert(served.push(a).drop_last() =~= served);
}

/// A plugin's answer is told and kept with the plugin's own words and language, under its
/// name, as an answer off the network.
pub proof fn a_plugins_answer_keeps_its_fields(
    track_id: i64,
    file_hash: Seq<char>,
    bundle: LyricsBundle,
    plugin_id: Seq<char>,
    now: i64,
)
    ensures
        ({
            let p = bundle_payload(track_id, bundle, plugin_id);
            &&& p.track_id == track_id
            &&& p.content == bundle.primary.content@
            &&& p.format == lyrics_format::plugin_format(bundle.primary.format)
            &&& p.source == LyricsSource::Api
            &&& p.provider == Some("plugin:"@ + plugin_id)
            &&& p.associated == accepted(bundle.associated@)
            &&& p.tag_write_skipped is None && p.sidecar_write_skipped is None
        }),
        ({
            let c = bundle_cached(file_hash, bundle, plugin_id, now);
            &&& c.row.file_hash == file_hash
            &&& c.row.content == bundle.primary.content@
            &&& c.row.provider == Some("plugin:"@ + plugin_id)
            &&& c.row.language == text::opt_text(bundle.primary.language)
            &&& c.row.fetched_at == now
            &&& c.row.source == "api"@
            &&& c.associated.len() == accepted(bundle.associated@).len()
        }),
{
}

/// A reply can be used exactly where the plugin answered with lyrics that are what it says.
pub proof fn a_usable_reply_is_an_honest_answer(reply: PluginReply)
    ensures
        is_usable(reply) <==> reply.bundle is Some && is_honest(reply.bundle->0.primary),
{
}

/// A search asks for the title, and where an artist is known for the first of the artists
/// too.
pub proof fn a_search_asks_for_title_and_first_artist(
    title: Seq<char>,
    first: Seq<char>,
    others: Seq<char>,
)
    requires
        !text::is_blank(first),
        forall|k: int|
            0 <= k < first.len() ==> !(#[trigger] text::occurs_at(
                first + "; "@ + others,
                "; "@,
                k,
            )),
    ensures
        query_text(title, None) == title,
        query_text(title, Some(first)) == title + " "@ + first,
        query_text(title, Some(first + "; "@ + others)) == title + " "@ + first,
        query_text(title, Some(seq![])) == title,
{
    reveal_strlit("; ");
    let all = first + "; "@ + others;
    assert(all.subrange(first.len() as int, first.len() as int + 2) =~= "; "@);
    assert(text::occurs_at(all, "; "@, first.len() as int));
    text::the_first_part_ends_what_is_before(all, "; "@, first.len() as int);
    assert(all.take(first.len() as int) =~= first);
    assert forall|k: int| 0 <= k < first.len() implies !(#[trigger] text::occurs_at(
        first,
        "; "@,
        k,
    )) by {
        if text::occurs_at(first, "; "@, k) {
            assert(all.subrange(k, k + 2) =~= first.subrange(k, k + 2));
            assert(text::occurs_at(all, "; "@, k));
        }
    }
    text::the_first_part_ends_what_is_before(first, "; "@, first.len() as int);
    assert(first.take(first.len() as int) =~= first);
    let k = choose|k: int| 0 <= k < first.len() && !text::is_white_space(#[trigger] first[k]);
    assert(all[k] == first[k]);
}

/// A length takes up the fewest whole seconds that hold it.
pub proof fn a_begun_second_counts(ms: int)
    ensures
        ms <= 0 ==> seconds_up(ms) == 0,
        ms > 0 ==> seconds_up(ms) * 1000 >= ms && (seconds_up(ms) - 1) * 1000 < ms,
{
}

/// A text says something where a character of it is not white space.
pub proof fn a_blank_text_says_nothing(t: String)
    ensures
        says_something(Some(t)) <==> exists|i: int|
            0 <= i < t@.len() && !text::is_white_space(#[trigger] t@[i]),
        !says_something(None),
{
}

/// All plugins are asked unless one is wanted, and then that one alone, where it is there.
pub proof fn only_the_wanted_plugin_is_asked(ids: Seq<Seq<char>>, wanted: Seq<char>)
    ensures
        wanted_of(ids, None) == ids,
        forall|i: int|
            0 <= i < wanted_of(ids, Some(wanted)).len() ==> #[trigger] wanted_of(ids, Some(wanted))[i]
                == wanted,
        ids.contains(wanted) <==> wanted_of(ids, Some(wanted)).len() > 0,
{
    broadcast use vstd::seq_lib::group_filter_ensures;

    let kept = ids.filter(is_text(wanted));
    assert forall|i: int| 0 <= i < kept.len() implies #[trigger] kept[i] == wanted by {
        assert(is_text(wanted)(kept[i]));
    }
    if ids.contains(wanted) {
        let k = choose|k: int| 0 <= k < ids.len() && ids[k] == wanted;
        assert(is_text(wanted)(ids[k]));
        assert(kept.contains(ids[k]));
    }
    if kept.len() > 0 {
        assert(kept.contains(kept[0]));
        ids.lemma_filter_contains_rev(is_text(wanted), kept[0]);
    }
}

/// An answer names its provider where one gave it.
pub proof fn an_answer_names_its_provider(p: Provider)
    ensures
        opt_provider(Some(p)) == Some(lyrics_providers::provider_id(p)),
        opt_provider(None) is None,
{
}

/// What the interface is told of lyrics is what they hold, each thing in its place.
pub proof fn lyrics_are_told_as_they_are(p: LyricsPayload, a: AssociatedLyrics)
    ensures
        p@.track_id == p.track_id,
        p@.content == p.content@,
        p@.format == p.format,
        p@.source == p.source,
        p.provider is Some ==> p@.provider == Some(p.provider->0@),
        p.provider is None ==> p@.provider is None,
        p@.tag_write_skipped == p.tag_write_skipped,
        p@.sidecar_write_skipped == p.sidecar_write_skipped,
        p@.associated.len() == p.associated@.len(),
        forall|i: int| 0 <= i < p.associated@.len() ==> #[trigger] p@.associated[i] == p.associated@[i]@,
        a@.kind == a.kind@,
        a.language is Some ==> a@.language == Some(a.language->0@),
        a.language is None ==> a@.language is None,
        a@.content == a.content@,
        a@.format == a.format,
{
}

/// What is stored of lyrics is what the row holds, each thing in its place.
pub proof fn rows_are_stored_as_they_are(w: CacheWrite, a: AssociatedRow)
    ensures
        w@.row.file_hash == w.row.file_hash@,
        w@.row.content == w.row.content@,
        w@.row.format == w.row.format@,
        w@.row.source == w.row.source@,
        w.row.provider is Some ==> w@.row.provider == Some(w.row.provider->0@),
        w.row.provider is None ==> w@.row.provider is None,
        w.row.language is Some ==> w@.row.language == Some(w.row.language->0@),
        w.row.language is None ==> w@.row.language is None,
        w@.row.fetched_at == w.row.fetched_at,
        w@.associated.len() == w.associated@.len(),
        forall|i: int| 0 <= i < w.associated@.len() ==> #[trigger] w@.associated[i] == w.associated@[i]@,
        a@.kind == a.kind@,
        a.language is Some ==> a@.language == Some(a.language->0@),
        a.language is None ==> a@.language is None,
        a@.content == a.content@,
        a@.format == a.format@,
{
}

} // verus!
