//! Lyrics inside an audio file's tags: which value a reader takes, and what a
//! writer leaves behind.

use vstd::prelude::*;

use lofty::id3::v2::Id3v2Tag;
use lofty::ogg::tag::VorbisComments;
use lofty::tag::{ItemKey, Tag};

use crate::lyrics_format;
use crate::lyrics_format::{LyricsFormat, LyricsSource};
use crate::text;
use crate::text::{blank, chars_of, clone_opt, has_infix, lines, string_of};

verus! {

/// How far into a description a service's credit is looked for.
pub const BLURB_CHARS: usize = 400;

/// The keys of timed lyrics that no standard key stands for, the preferred one
/// first. The first is the one that is written.
pub open spec fn synced_keys() -> Seq<Seq<char>> {
    seq!["SYNCEDLYRICS"@, "SYNCED LYRICS"@, "SYNCED_LYRICS"@, "LYRICS_SYNCED"@]
}

/// The keys of plain lyrics that no standard key stands for, the preferred one
/// first.
pub open spec fn unsynced_keys() -> Seq<Seq<char>> {
    seq![
        "UNSYNCEDLYRICS"@,
        "UNSYNCED LYRICS"@,
        "UNSYNCED_LYRICS"@,
        "LYRICS_UNSYNCED"@,
        "LYRICS"@,
    ]
}

/// What the borrowed strings of a list hold.
pub open spec fn str_texts(v: Seq<&'static str>) -> Seq<Seq<char>> {
    v.map_values(|x: &'static str| x@)
}

/// The keys of timed lyrics.
pub fn synced_lyrics_keys() -> (v: Vec<&'static str>)
    ensures
        str_texts(v@) == synced_keys(),
        v@.len() == 4,
{
    let v = vec!["SYNCEDLYRICS", "SYNCED LYRICS", "SYNCED_LYRICS", "LYRICS_SYNCED"];
    assert(str_texts(v@) =~= synced_keys());
    v
}

/// The keys of plain lyrics.
pub fn unsynced_lyrics_keys() -> (v: Vec<&'static str>)
    ensures
        str_texts(v@) == unsynced_keys(),
        v@.len() == 5,
{
    let v = vec!["UNSYNCEDLYRICS", "UNSYNCED LYRICS", "UNSYNCED_LYRICS", "LYRICS_UNSYNCED", "LYRICS"];
    assert(str_texts(v@) =~= unsynced_keys());
    v
}

/// The comments of a Vorbis tag.
#[verifier::external_type_specification]
#[verifier::external_body]
pub struct ExVorbisComments(VorbisComments);

/// An ID3v2 tag.
#[verifier::external_type_specification]
#[verifier::external_body]
pub struct ExId3v2Tag(Id3v2Tag);

/// The key and value pairs of a Vorbis tag, in order.
pub uninterp spec fn comments_of(c: VorbisComments) -> Seq<(Seq<char>, Seq<char>)>;

/// The description and content pairs of an ID3v2 tag's `TXXX` frames, in order.
pub uninterp spec fn user_texts_of(t: Id3v2Tag) -> Seq<(Seq<char>, Seq<char>)>;

/// A key that a Vorbis tag admits: not empty, and made of the characters from
/// the space to the closing brace but for the equals sign.
pub open spec fn vorbis_key(key: Seq<char>) -> bool {
    &&& key.len() > 0
    &&& forall|i: int| 0 <= i < key.len() ==> 0x20 <= (#[trigger] key[i]) as int <= 0x7D && key[i] != '='
}

/// The pairs whose key is not the given one, whatever the case.
pub open spec fn without_key(
    items: Seq<(Seq<char>, Seq<char>)>,
    key: Seq<char>,
) -> Seq<(Seq<char>, Seq<char>)> {
    items.filter(|p: (Seq<char>, Seq<char>)| !text::same_ignoring_ascii_case(p.0, key))
}

/// The value of the first pair with a key, whatever the case.
pub open spec fn first_comment(items: Seq<(Seq<char>, Seq<char>)>, key: Seq<char>) -> Option<Seq<char>>
    decreases items.len(),
{
    if items.len() == 0 {
        None
    } else if text::same_ignoring_ascii_case(items[0].0, key) {
        Some(items[0].1)
    } else {
        first_comment(items.drop_first(), key)
    }
}

/// Where the first pair with exactly this description stands, or the number of
/// pairs.
pub open spec fn user_text_index(items: Seq<(Seq<char>, Seq<char>)>, description: Seq<char>) -> int
    decreases items.len(),
{
    if items.len() == 0 || items[0].0 == description {
        0
    } else {
        1 + user_text_index(items.drop_first(), description)
    }
}

/// The pairs without the first one that has this description.
pub open spec fn without_user_text(
    items: Seq<(Seq<char>, Seq<char>)>,
    description: Seq<char>,
) -> Seq<(Seq<char>, Seq<char>)> {
    let i = user_text_index(items, description);
    if 0 <= i < items.len() {
        items.remove(i)
    } else {
        items
    }
}

/// The content of the first pair with exactly this description.
pub open spec fn user_text(items: Seq<(Seq<char>, Seq<char>)>, description: Seq<char>) -> Option<Seq<char>> {
    let i = user_text_index(items, description);
    if 0 <= i < items.len() {
        Some(items[i].1)
    } else {
        None
    }
}

/// `lofty`'s `VorbisComments::get`: the first value under the key, ASCII case
/// aside, of a key that such a tag admits.
#[verifier::external_body]
fn vorbis_get(c: &VorbisComments, key: &str) -> (r: Option<String>)
    ensures
        text::opt_text(r) == (if vorbis_key(key@) {
            first_comment(comments_of(*c), key@)
        } else {
            None
        }),
{
    c.get(key).map(|v| v.to_owned())
}

/// `lofty`'s `VorbisComments::remove`: every pair under the key goes, ASCII case
/// aside, and the others stay, in whatever order. Answers how many went.
#[verifier::external_body]
pub(crate) fn vorbis_remove(c: &mut VorbisComments, key: &str) -> (n: usize)
    ensures
        comments_of(*final(c)).to_multiset() == without_key(comments_of(*old(c)), key@).to_multiset(),
        n == comments_of(*old(c)).len() - without_key(comments_of(*old(c)), key@).len(),
{
    c.remove(key).count()
}

/// `lofty`'s `VorbisComments::insert`: the pair goes to the end and every other
/// pair under its key goes away, if the tag admits the key.
#[verifier::external_body]
pub(crate) fn vorbis_insert(c: &mut VorbisComments, key: String, value: String)
    ensures
        comments_of(*final(c)) == (if vorbis_key(key@) {
            without_key(comments_of(*old(c)), key@).push((key@, value@))
        } else {
            comments_of(*old(c))
        }),
{
    c.insert(key, value)
}

/// `lofty`'s `get_user_text`: the content of the first `TXXX` frame with this
/// description.
#[verifier::external_body]
fn id3v2_get(t: &Id3v2Tag, description: &str) -> (r: Option<String>)
    ensures
        text::opt_text(r) == user_text(user_texts_of(*t), description@),
{
    t.get_user_text(description).map(|v| v.to_owned())
}

/// `lofty`'s `remove_user_text`: the first `TXXX` frame with this description
/// goes. Answers whether there was one.
#[verifier::external_body]
pub(crate) fn id3v2_remove(t: &mut Id3v2Tag, description: &str) -> (r: bool)
    ensures
        r == (user_text(user_texts_of(*old(t)), description@) is Some),
        user_texts_of(*final(t)) == without_user_text(user_texts_of(*old(t)), description@),
{
    t.remove_user_text(description).is_some()
}

/// `lofty`'s `insert_user_text`: a `TXXX` frame goes to the end, in place of the
/// first one with its description.
#[verifier::external_body]
pub(crate) fn id3v2_insert(t: &mut Id3v2Tag, description: String, content: String)
    ensures
        user_texts_of(*final(t)) == without_user_text(user_texts_of(*old(t)), description@).push(
            (description@, content@),
        ),
{
    t.insert_user_text(description, content);
}

/// The first value that is not blank, trimmed.
pub open spec fn first_real(values: Seq<Option<Seq<char>>>) -> Option<Seq<char>>
    decreases values.len(),
{
    if values.len() == 0 {
        None
    } else {
        match values[0] {
            Some(v) => if text::is_blank(v) {
                first_real(values.drop_first())
            } else {
                Some(text::trimmed(v))
            },
            None => first_real(values.drop_first()),
        }
    }
}

/// What a Vorbis tag holds under each key.
pub open spec fn comment_values(
    items: Seq<(Seq<char>, Seq<char>)>,
    keys: Seq<Seq<char>>,
) -> Seq<Option<Seq<char>>> {
    keys.map_values(
        |k: Seq<char>|
            if vorbis_key(k) {
                first_comment(items, k)
            } else {
                None
            },
    )
}

/// What an ID3v2 tag holds under each description.
pub open spec fn user_values(
    items: Seq<(Seq<char>, Seq<char>)>,
    keys: Seq<Seq<char>>,
) -> Seq<Option<Seq<char>>> {
    keys.map_values(|k: Seq<char>| user_text(items, k))
}

/// Keep a value unless it is blank, trimmed.
pub fn trimmed_value(v: Option<String>) -> (r: Option<String>)
    ensures
        text::opt_text(r) == (match v {
            Some(s) => if text::is_blank(s@) {
                None
            } else {
                Some(text::trimmed(s@))
            },
            None => None,
        }),
{
    match v {
        Some(s) => {
            if blank(s.as_str()) {
                None
            } else {
                Some(s.as_str().trim().to_owned())
            }
        },
        None => None,
    }
}

/// The lyrics under the first key of a Vorbis tag that holds any.
pub fn read_vorbis_comment(c: &VorbisComments, keys: &Vec<&'static str>) -> (r: Option<String>)
    ensures
        text::opt_text(r) == first_real(comment_values(comments_of(*c), str_texts(keys@))),
{
    let ghost all = comment_values(comments_of(*c), str_texts(keys@));
    let mut i: usize = 0;
    assert(all.skip(0) =~= all);
    while i < keys.len()
        invariant
            i <= keys@.len(),
            all == comment_values(comments_of(*c), str_texts(keys@)),
            first_real(all) == first_real(all.skip(i as int)),
        decreases keys@.len() - i,
    {
        assert(all[i as int] == all.skip(i as int)[0]);
        assert(all.skip(i as int).drop_first() =~= all.skip(i + 1));
        assert(str_texts(keys@)[i as int] == keys@[i as int]@);
        let found = trimmed_value(vorbis_get(c, keys[i]));
        if found.is_some() {
            return found;
        }
        i = i + 1;
    }
    assert(all.skip(i as int) =~= Seq::empty());
    None
}

/// The lyrics under the first description of an ID3v2 tag that holds any.
pub fn read_id3v2_txxx(t: &Id3v2Tag, keys: &Vec<&'static str>) -> (r: Option<String>)
    ensures
        text::opt_text(r) == first_real(user_values(user_texts_of(*t), str_texts(keys@))),
{
    let ghost all = user_values(user_texts_of(*t), str_texts(keys@));
    let mut i: usize = 0;
    assert(all.skip(0) =~= all);
    while i < keys.len()
        invariant
            i <= keys@.len(),
            all == user_values(user_texts_of(*t), str_texts(keys@)),
            first_real(all) == first_real(all.skip(i as int)),
        decreases keys@.len() - i,
    {
        assert(all[i as int] == all.skip(i as int)[0]);
        assert(all.skip(i as int).drop_first() =~= all.skip(i + 1));
        assert(str_texts(keys@)[i as int] == keys@[i as int]@);
        let found = trimmed_value(id3v2_get(t, keys[i]));
        if found.is_some() {
            return found;
        }
        i = i + 1;
    }
    assert(all.skip(i as int) =~= Seq::empty());
    None
}

/// A tag of any kind, by its standard keys.
#[verifier::external_type_specification]
#[verifier::external_body]
pub struct ExTag(Tag);

/// A standard key that may hold lyrics.
#[derive(Clone, Copy, PartialEq, Eq, Debug, Structural)]
pub enum TextKey {
    UnsyncLyrics,
    Lyrics,
    Description,
}

/// What a tag holds as text under its standard keys: of each key the first item,
/// where that is a text.
pub uninterp spec fn standard_texts_of(tag: Tag) -> Map<TextKey, Seq<char>>;

/// The text under a standard key.
pub open spec fn standard_text(texts: Map<TextKey, Seq<char>>, key: TextKey) -> Option<Seq<char>> {
    if texts.contains_key(key) {
        Some(texts[key])
    } else {
        None
    }
}

/// `lofty`'s `Tag::get_string`: the text under a standard key.
#[verifier::external_body]
fn tag_text(tag: &Tag, key: TextKey) -> (r: Option<String>)
    ensures
        text::opt_text(r) == standard_text(standard_texts_of(*tag), key),
{
    let item = match key {
        TextKey::UnsyncLyrics => ItemKey::UnsyncLyrics,
        TextKey::Lyrics => ItemKey::Lyrics,
        TextKey::Description => ItemKey::Description,
    };
    tag.get_string(item).map(|s| s.to_owned())
}

/// The first of the two standard keys that is not blank, untrimmed.
pub open spec fn known_text(texts: Map<TextKey, Seq<char>>) -> Option<Seq<char>> {
    let unsync = standard_text(texts, TextKey::UnsyncLyrics);
    let lyrics = standard_text(texts, TextKey::Lyrics);
    if unsync matches Some(s) && !text::is_blank(s) {
        unsync
    } else if lyrics matches Some(s) && !text::is_blank(s) {
        lyrics
    } else {
        None
    }
}

/// The first of two values that is not blank, untrimmed.
pub fn first_not_blank(first: Option<String>, second: Option<String>) -> (r: Option<String>)
    ensures
        r == (if first matches Some(s) && !text::is_blank(s@) {
            first
        } else if second matches Some(s) && !text::is_blank(s@) {
            second
        } else {
            None
        }),
{
    match first {
        Some(s) => if !blank(s.as_str()) {
            return Some(s);
        },
        None => {},
    }
    match second {
        Some(s) => if !blank(s.as_str()) {
            return Some(s);
        },
        None => {},
    }
    None
}

/// The first of the two standard keys of a tag that is not blank, untrimmed.
pub fn known_key_lyrics(tag: &Tag) -> (r: Option<String>)
    ensures
        text::opt_text(r) == known_text(standard_texts_of(*tag)),
{
    first_not_blank(tag_text(tag, TextKey::UnsyncLyrics), tag_text(tag, TextKey::Lyrics))
}

/// Whether the custom keys of plain lyrics have to be read: only when neither
/// the timed key nor a standard one gave anything.
pub fn wants_custom_unsynced(synced: &Option<String>, known: &Option<String>) -> (r: bool)
    ensures
        r == (synced is None && known is None),
{
    synced.is_none() && known.is_none()
}

/// The embedded lyrics: the first candidate that is not blank, trimmed. The
/// candidates stand in order of preference.
pub fn resolve_embedded_lyrics(candidates: [Option<String>; 3]) -> (r: Option<String>)
    ensures
        text::opt_text(r) == first_real(
            seq![
                text::opt_text(candidates[0]),
                text::opt_text(candidates[1]),
                text::opt_text(candidates[2]),
            ],
        ),
{
    let ghost all = seq![
        text::opt_text(candidates[0]),
        text::opt_text(candidates[1]),
        text::opt_text(candidates[2]),
    ];
    let first = clone_opt(&candidates[0]);
    let second = clone_opt(&candidates[1]);
    let third = clone_opt(&candidates[2]);
    proof {
        reveal_with_fuel(first_real, 4);
        assert(all.drop_first()[0] == all[1]);
        assert(all.drop_first().drop_first()[0] == all[2]);
        assert(all.drop_first().drop_first().drop_first().len() == 0);
    }
    let a = trimmed_value(first);
    if a.is_some() {
        return a;
    }
    let b = trimmed_value(second);
    if b.is_some() {
        return b;
    }
    trimmed_value(third)
}

/// Timed lyrics under a custom key win over the standard keys, whatever those
/// hold.
pub proof fn timed_lyrics_win(
    synced: Seq<char>,
    known: Option<Seq<char>>,
    custom: Option<Seq<char>>,
)
    requires
        !text::is_blank(synced),
    ensures
        first_real(seq![Some(synced), known, custom]) == Some(text::trimmed(synced)),
{
}

/// The texts by which a distribution service's credit is known.
pub open spec fn credit(head: Seq<char>) -> bool {
    ||| text::has_part(head, "provided to youtube by"@)
    ||| text::has_part(head, "auto-generated by youtube"@)
}

/// Whether a text is a distribution service's credit, by its beginning.
pub open spec fn is_credit(s: Seq<char>) -> bool {
    credit(text::unicode_lowercase(lyrics_format::first_of(s, BLURB_CHARS as nat)))
}

/// Whether a text is a distribution service's credit.
pub fn is_service_blurb(s: &str) -> (r: bool)
    ensures
        r == is_credit(s@),
{
    let c = chars_of(s);
    let n: usize = if c.len() < BLURB_CHARS {
        c.len()
    } else {
        BLURB_CHARS
    };
    let head = string_of(&c, 0, n);
    assert(head@ =~= lyrics_format::first_of(s@, BLURB_CHARS as nat));
    let lower = chars_of(head.as_str().to_lowercase().as_str());
    has_infix(&lower, "provided to youtube by") || has_infix(&lower, "auto-generated by youtube")
}

/// The lyrics that a description field may be taken for: more than three lines
/// that are no service's credit, trimmed.
pub open spec fn description_value(s: Seq<char>) -> Option<Seq<char>> {
    if text::lines_of(s).len() > 3 && !is_credit(s) && !text::is_blank(s) {
        Some(text::trimmed(s))
    } else {
        None
    }
}

/// The lyrics that a description field may be taken for.
pub fn read_description_lyrics(description: Option<String>) -> (r: Option<String>)
    ensures
        text::opt_text(r) == (match description {
            Some(s) => description_value(s@),
            None => None,
        }),
{
    match description {
        Some(s) => {
            let l = lines(s.as_str());
            assert(text::texts(l@).len() == l@.len());
            if l.len() <= 3 || is_service_blurb(s.as_str()) {
                None
            } else {
                trimmed_value(Some(s))
            }
        },
        None => None,
    }
}

/// The lyrics that the description of a tag may be taken for.
pub fn read_tag_description(tag: &Tag) -> (r: Option<String>)
    ensures
        text::opt_text(r) == (match standard_text(
            standard_texts_of(*tag),
            TextKey::Description,
        ) {
            Some(s) => description_value(s),
            None => None,
        }),
{
    read_description_lyrics(tag_text(tag, TextKey::Description))
}

/// The local lyrics below the embedded tag, with their source: a file beside
/// the track, and only where there is none the description.
pub fn read_local_after_embedded(
    sidecar: Option<String>,
    description: Option<String>,
) -> (r: Option<(String, LyricsSource)>)
    ensures
        r == (match (sidecar, description) {
            (Some(c), _) => Some((c, LyricsSource::LrcFile)),
            (None, Some(d)) => Some((d, LyricsSource::Embedded)),
            (None, None) => None,
        }),
{
    match sidecar {
        Some(c) => Some((c, LyricsSource::LrcFile)),
        None => match description {
            Some(d) => Some((d, LyricsSource::Embedded)),
            None => None,
        },
    }
}

/// The audio containers that the library tells apart.
#[derive(Clone, Copy, PartialEq, Eq, Debug, Structural)]
pub enum Container {
    /// DSD with an ID3v2 tag behind a pointer in its header.
    Dsf,
    Mpeg,
    Aac,
    Flac,
    Vorbis,
    Opus,
    Speex,
    Mp4,
    /// Anything else.
    Other,
}

impl Container {
    /// Whether the tag has a key for an arbitrary text, as timed XML needs one.
    pub open spec fn carries_any_text(self) -> bool {
        self == Container::Flac || self == Container::Vorbis || self == Container::Opus || self
            == Container::Speex || self == Container::Mp4
    }

    /// Whether the tag has a key for an arbitrary text.
    pub fn carries_arbitrary_lyrics(self) -> (r: bool)
        ensures
            r == self.carries_any_text(),
    {
        matches!(self, Container::Flac | Container::Vorbis | Container::Opus | Container::Speex | Container::Mp4)
    }

    /// Which tag the custom keys of a container live in.
    pub fn custom_tag(self) -> (r: CustomTag)
        ensures
            r == (match self {
                Container::Mpeg => CustomTag::Id3v2,
                Container::Flac | Container::Vorbis | Container::Opus | Container::Speex => CustomTag::Vorbis,
                _ => CustomTag::Unread,
            }),
    {
        match self {
            Container::Mpeg => CustomTag::Id3v2,
            Container::Flac | Container::Vorbis | Container::Opus | Container::Speex => CustomTag::Vorbis,
            _ => CustomTag::Unread,
        }
    }

    /// Which tag a stamp is put into.
    pub fn stamped_tag(self) -> (r: StampedTag)
        ensures
            r == (match self {
                Container::Dsf => StampedTag::DsfId3v2,
                Container::Mpeg | Container::Aac => StampedTag::Id3v2,
                Container::Flac | Container::Vorbis | Container::Opus | Container::Speex => StampedTag::Vorbis,
                Container::Mp4 | Container::Other => StampedTag::Unstamped,
            }),
    {
        match self {
            Container::Dsf => StampedTag::DsfId3v2,
            Container::Mpeg | Container::Aac => StampedTag::Id3v2,
            Container::Flac | Container::Vorbis | Container::Opus | Container::Speex => StampedTag::Vorbis,
            Container::Mp4 | Container::Other => StampedTag::Unstamped,
        }
    }
}

/// Where custom lyrics keys are read.
#[derive(Clone, Copy, PartialEq, Eq, Debug, Structural)]
pub enum CustomTag {
    Id3v2,
    Vorbis,
    Unread,
}

/// Where the timed key is written.
#[derive(Clone, Copy, PartialEq, Eq, Debug, Structural)]
pub enum StampedTag {
    DsfId3v2,
    Id3v2,
    Vorbis,
    Unstamped,
}

/// What is put under the standard lyrics key.
#[derive(Clone, Copy, PartialEq, Eq, Debug, Structural)]
pub enum LyricsSlot {
    Cleared,
    Arbitrary,
    Unsynchronised,
}

/// How lyrics go into a file.
#[derive(Clone, Copy, PartialEq, Eq, Debug, Structural)]
pub enum TagWrite {
    /// They do not: the container has no place for them.
    Skipped,
    /// Under the standard key, and under the timed key where `stamp` says so;
    /// otherwise the timed key is taken away.
    Written { slot: LyricsSlot, stamp: bool },
}

/// How lyrics go into a file's tag. Timed XML needs a container that carries
/// it, but a blank text clears the lyrics of any file.
pub open spec fn tag_write(
    container: Option<Container>,
    content: Seq<char>,
    format: LyricsFormat,
) -> TagWrite {
    let empty = text::is_blank(content);
    let ttml = format == LyricsFormat::Ttml;
    if ttml && !empty && !(container matches Some(c) && c.carries_any_text()) {
        TagWrite::Skipped
    } else {
        TagWrite::Written {
            slot: if empty {
                LyricsSlot::Cleared
            } else if ttml {
                LyricsSlot::Arbitrary
            } else {
                LyricsSlot::Unsynchronised
            },
            stamp: !empty && (format == LyricsFormat::Lrc || format == LyricsFormat::EnhancedLrc),
        }
    }
}

/// Decide how lyrics go into a file's tag.
pub fn write_lyrics_to_file(
    container: Option<Container>,
    content: &str,
    format: LyricsFormat,
) -> (r: TagWrite)
    ensures
        r == tag_write(container, content@, format),
{
    let empty = blank(content);
    let ttml = matches!(format, LyricsFormat::Ttml);
    let carries = match container {
        Some(c) => c.carries_arbitrary_lyrics(),
        None => false,
    };
    if ttml && !empty && !carries {
        return TagWrite::Skipped;
    }
    let slot = if empty {
        LyricsSlot::Cleared
    } else if ttml {
        LyricsSlot::Arbitrary
    } else {
        LyricsSlot::Unsynchronised
    };
    let stamp = match format {
        LyricsFormat::Lrc | LyricsFormat::EnhancedLrc => !empty,
        _ => false,
    };
    TagWrite::Written { slot, stamp }
}

/// Clearing lyrics is never skipped, and plain or timed text never is either:
/// only timed XML can find no place.
pub proof fn only_timed_xml_is_skipped(
    container: Option<Container>,
    content: Seq<char>,
    format: LyricsFormat,
)
    ensures
        tag_write(container, content, format) == TagWrite::Skipped ==> format == LyricsFormat::Ttml
            && !text::is_blank(content),
        text::is_blank(content) ==> tag_write(container, content, format) == (TagWrite::Written {
            slot: LyricsSlot::Cleared,
            stamp: false,
        }),
{
}

/// Timed and plain lyrics are looked for under these keys, in this order.
pub proof fn lyrics_have_these_keys()
    ensures
        synced_keys() == seq![
            "SYNCEDLYRICS"@,
            "SYNCED LYRICS"@,
            "SYNCED_LYRICS"@,
            "LYRICS_SYNCED"@,
        ],
        unsynced_keys() == seq![
            "UNSYNCEDLYRICS"@,
            "UNSYNCED LYRICS"@,
            "UNSYNCED_LYRICS"@,
            "LYRICS_UNSYNCED"@,
            "LYRICS"@,
        ],
{
}

/// Of the values under several keys the first that is not blank is taken, trimmed, whatever
/// comes after it; nothing is taken only where all are blank or missing.
pub proof fn the_first_value_with_words_is_taken(values: Seq<Option<Seq<char>>>, k: int)
    requires
        0 <= k <= values.len(),
        forall|j: int|
            0 <= j < k ==> ((#[trigger] values[j]) is None || text::is_blank(values[j]->0)),
        k < values.len() ==> values[k] is Some && !text::is_blank(values[k]->0),
    ensures
        first_real(values) == (if k < values.len() {
            Some(text::trimmed(values[k]->0))
        } else {
            None
        }),
    decreases values.len(),
{
    if values.len() > 0 && k > 0 {
        assert(values[0] is None || text::is_blank(values[0]->0));
        let rest = values.drop_first();
        assert forall|j: int| 0 <= j < k - 1 implies ((#[trigger] rest[j]) is None || text::is_blank(
            rest[j]->0,
        )) by {
            assert(rest[j] == values[j + 1]);
        }
        the_first_value_with_words_is_taken(rest, k - 1);
    }
}

/// Each key is looked up by itself, in the keys' order.
pub proof fn each_key_is_looked_up(
    items: Seq<(Seq<char>, Seq<char>)>,
    keys: Seq<Seq<char>>,
    i: int,
)
    requires
        0 <= i < keys.len(),
    ensures
        comment_values(items, keys).len() == keys.len(),
        user_values(items, keys).len() == keys.len(),
        user_values(items, keys)[i] == user_text(items, keys[i]),
        vorbis_key(keys[i]) ==> comment_values(items, keys)[i] == first_comment(items, keys[i]),
        !vorbis_key(keys[i]) ==> comment_values(items, keys)[i] is None,
{
}

/// The two standard keys of a tag are looked at in turn: the first with words in it is
/// taken as it stands.
pub proof fn a_standard_key_with_words_is_taken(texts: Map<TextKey, Seq<char>>)
    ensures
        texts.contains_key(TextKey::UnsyncLyrics) && !text::is_blank(texts[TextKey::UnsyncLyrics])
            ==> known_text(texts) == Some(texts[TextKey::UnsyncLyrics]),
        !(texts.contains_key(TextKey::UnsyncLyrics) && !text::is_blank(
            texts[TextKey::UnsyncLyrics],
        )) && texts.contains_key(TextKey::Lyrics) && !text::is_blank(texts[TextKey::Lyrics])
            ==> known_text(texts) == Some(texts[TextKey::Lyrics]),
        !(texts.contains_key(TextKey::UnsyncLyrics) && !text::is_blank(
            texts[TextKey::UnsyncLyrics],
        )) && !(texts.contains_key(TextKey::Lyrics) && !text::is_blank(texts[TextKey::Lyrics]))
            ==> known_text(texts) is None,
        standard_text(texts, TextKey::Description) is Some <==> texts.contains_key(
            TextKey::Description,
        ),
{
}

/// A credit is known by one of two phrases among the first four hundred characters,
/// whatever their case.
pub proof fn a_credit_is_known_by_its_phrases(s: Seq<char>)
    ensures
        ({
            let head = text::unicode_lowercase(
                if s.len() <= 400 {
                    s
                } else {
                    s.take(400)
                },
            );
            is_credit(s) <==> text::has_part(head, "provided to youtube by"@) || text::has_part(
                head,
                "auto-generated by youtube"@,
            )
        }),
{
}

/// A description is taken for lyrics, trimmed, exactly where it has at least four lines with
/// words in them somewhere and is no credit.
pub proof fn a_long_description_is_lyrics(s: Seq<char>)
    ensures
        description_value(s) is Some <==> text::lines_of(s).len() >= 4 && !is_credit(s)
            && !text::is_blank(s),
        description_value(s) matches Some(t) ==> t == text::trimmed(s),
{
}

/// A container has a place for timed XML exactly where its tag has keys for any text.
pub proof fn these_containers_carry_any_text()
    ensures
        Container::Flac.carries_any_text() && Container::Vorbis.carries_any_text()
            && Container::Opus.carries_any_text() && Container::Speex.carries_any_text()
            && Container::Mp4.carries_any_text(),
        !Container::Dsf.carries_any_text() && !Container::Mpeg.carries_any_text()
            && !Container::Aac.carries_any_text() && !Container::Other.carries_any_text(),
{
}

/// Lyrics with words in them go under the standard key; those with stamps go under the
/// timed key too, and no others do. Timed XML goes where there is a place for it.
pub proof fn lyrics_go_under_their_keys(
    container: Option<Container>,
    content: Seq<char>,
    format: LyricsFormat,
)
    requires
        !text::is_blank(content),
    ensures
        format == LyricsFormat::Plain ==> tag_write(container, content, format) == (
        TagWrite::Written { slot: LyricsSlot::Unsynchronised, stamp: false }),
        format == LyricsFormat::Lrc || format == LyricsFormat::EnhancedLrc ==> tag_write(
            container,
            content,
            format,
        ) == (TagWrite::Written { slot: LyricsSlot::Unsynchronised, stamp: true }),
        format == LyricsFormat::Ttml && (container matches Some(c) && c.carries_any_text())
            ==> tag_write(container, content, format) == (TagWrite::Written {
            slot: LyricsSlot::Arbitrary,
            stamp: false,
        }),
        format == LyricsFormat::Ttml && !(container matches Some(c) && c.carries_any_text())
            ==> tag_write(container, content, format) == TagWrite::Skipped,
{
}

/// The comment that is read is the first with its key, whatever the case of ASCII, and there
/// is none where no comment has the key.
pub proof fn the_first_comment_of_a_key_is_read(items: Seq<(Seq<char>, Seq<char>)>, key: Seq<char>, k: int)
    requires
        0 <= k <= items.len(),
        k < items.len() ==> text::ascii_lowercase(items[k].0) == text::ascii_lowercase(key),
        forall|j: int|
            0 <= j < k ==> text::ascii_lowercase((#[trigger] items[j]).0) != text::ascii_lowercase(
                key,
            ),
    ensures
        k < items.len() ==> first_comment(items, key) == Some(items[k].1),
        k == items.len() ==> first_comment(items, key) is None,
    decreases items.len(),
{
    if k > 0 {
        assert(text::ascii_lowercase(items[0].0) != text::ascii_lowercase(key));
        let rest = items.drop_first();
        assert forall|j: int| 0 <= j < k - 1 implies text::ascii_lowercase((#[trigger] rest[j]).0)
            != text::ascii_lowercase(key) by {
            assert(rest[j] == items[j + 1]);
        }
        the_first_comment_of_a_key_is_read(rest, key, k - 1);
    }
}

/// The text that is read is the first under its description, letter for letter, and it is
/// the only one that goes when the description does.
pub proof fn the_first_text_of_a_description_is_read(
    items: Seq<(Seq<char>, Seq<char>)>,
    description: Seq<char>,
    k: int,
)
    requires
        0 <= k <= items.len(),
        k < items.len() ==> items[k].0 == description,
        forall|j: int| 0 <= j < k ==> (#[trigger] items[j]).0 != description,
    ensures
        k < items.len() ==> user_text(items, description) == Some(items[k].1),
        k < items.len() ==> without_user_text(items, description) == items.take(k) + items.skip(
            k + 1,
        ),
        k == items.len() ==> user_text(items, description) is None,
        k == items.len() ==> without_user_text(items, description) == items,
    decreases items.len(),
{
    lemma_user_text_at(items, description, k);
    if k < items.len() {
        assert(items.remove(k) =~= items.take(k) + items.skip(k + 1));
    }
}

proof fn lemma_user_text_at(items: Seq<(Seq<char>, Seq<char>)>, description: Seq<char>, k: int)
    requires
        0 <= k <= items.len(),
        k < items.len() ==> items[k].0 == description,
        forall|j: int| 0 <= j < k ==> (#[trigger] items[j]).0 != description,
    ensures
        user_text_index(items, description) == k,
    decreases items.len(),
{
    if k > 0 {
        assert(items[0].0 != description);
        let rest = items.drop_first();
        assert forall|j: int| 0 <= j < k - 1 implies (#[trigger] rest[j]).0 != description by {
            assert(rest[j] == items[j + 1]);
        }
        lemma_user_text_at(rest, description, k - 1);
    }
}

/// A comment's key is made of the printed characters of ASCII but for the equals sign and
/// the tilde, one at least.
pub proof fn a_comment_key_is_made_of_these(key: Seq<char>, c: char)
    ensures
        !vorbis_key(Seq::<char>::empty()),
        vorbis_key(seq![c]) <==> ' ' <= c <= '}' && c != '=',
        key.len() > 0 ==> (vorbis_key(key.push(c)) <==> vorbis_key(key) && ' ' <= c <= '}' && c
            != '='),
{
    let one = seq![c];
    assert(one[0] == c);
    let more = key.push(c);
    assert(more[key.len() as int] == c);
    if vorbis_key(more) {
        assert forall|i: int| 0 <= i < key.len() implies 0x20 <= (#[trigger] key[i]) as int <= 0x7D
            && key[i] != '=' by {
            assert(more[i] == key[i]);
        }
    }
    if vorbis_key(key) && ' ' <= c <= '}' && c != '=' {
        assert forall|i: int| 0 <= i < more.len() implies 0x20 <= (#[trigger] more[i]) as int
            <= 0x7D && more[i] != '=' by {
            if i < key.len() {
                assert(more[i] == key[i]);
            }
        }
    }
}

} // verus!
