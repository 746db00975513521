//! Lyrics in a file beside the track: where one is looked for, which one wins,
//! and where one is written.

use vstd::prelude::*;

use crate::lyrics_format::{LyricsFormat, LyricsSource};
use crate::lyrics_tags;
use crate::lyrics_tags::trimmed_value;
use crate::text;
use crate::text::{around, blank, clone_opt, same_text};

verus! {

/// An entry of a directory.
#[derive(PartialEq, Eq, Debug)]
pub struct DirEntry {
    pub is_file: bool,
    pub is_dir: bool,
    /// The name without its extension, where it is text.
    pub stem: Option<String>,
    /// The extension, where there is one and it is text.
    pub extension: Option<String>,
}

/// Whether an entry is a file with this stem and this extension, whatever the
/// case.
pub open spec fn is_sidecar(e: DirEntry, stem: Seq<char>, extension: Seq<char>) -> bool {
    &&& e.is_file
    &&& e.stem matches Some(s) && text::same_ignoring_ascii_case(s@, stem)
    &&& e.extension matches Some(x) && text::ascii_lowercase(x@) == extension
}

/// The last entry that is a file with this stem and this extension.
pub open spec fn last_sidecar(
    entries: Seq<DirEntry>,
    stem: Seq<char>,
    extension: Seq<char>,
) -> Option<int>
    decreases entries.len(),
{
    if entries.len() == 0 {
        None
    } else if is_sidecar(entries.last(), stem, extension) {
        Some(entries.len() - 1)
    } else {
        last_sidecar(entries.drop_last(), stem, extension)
    }
}

/// The entries of a directory that are looked into, in this order.
#[derive(Clone, Copy, PartialEq, Eq, Debug)]
pub struct SidecarMatch {
    pub lrc: Option<usize>,
    pub txt: Option<usize>,
}

/// An index, where there is one.
pub open spec fn opt_index(o: Option<usize>) -> Option<int> {
    match o {
        Some(i) => Some(i as int),
        None => None,
    }
}

fn sidecar(e: &DirEntry, stem: &str, extension: &str) -> (r: bool)
    ensures
        r == is_sidecar(*e, stem@, extension@),
{
    if !e.is_file {
        return false;
    }
    match (&e.stem, &e.extension) {
        (Some(s), Some(x)) => {
            same_text(s.as_str().to_ascii_lowercase().as_str(), stem.to_ascii_lowercase().as_str())
                && same_text(x.as_str().to_ascii_lowercase().as_str(), extension)
        },
        _ => false,
    }
}

/// The files of a directory that may hold a track's lyrics.
pub fn read_stem_match_in_dir(entries: &Vec<DirEntry>, stem: &str) -> (r: SidecarMatch)
    ensures
        opt_index(r.lrc) == last_sidecar(entries@, stem@, "lrc"@),
        opt_index(r.txt) == last_sidecar(entries@, stem@, "txt"@),
        r.lrc matches Some(i) ==> i < entries@.len(),
        r.txt matches Some(i) ==> i < entries@.len(),
{
    let mut r = SidecarMatch { lrc: None, txt: None };
    let total: usize = entries.len();
    let mut i: usize = 0;
    while i < total
        invariant
            total == entries@.len(),
            i <= total,
            opt_index(r.lrc) == last_sidecar(entries@.take(i as int), stem@, "lrc"@),
            opt_index(r.txt) == last_sidecar(entries@.take(i as int), stem@, "txt"@),
            r.lrc matches Some(k) ==> k < i,
            r.txt matches Some(k) ==> k < i,
        decreases total - i,
    {
        assert(entries@.take(i + 1).drop_last() =~= entries@.take(i as int));
        if sidecar(&entries[i], stem, "lrc") {
            r.lrc = Some(i);
        }
        if sidecar(&entries[i], stem, "txt") {
            r.txt = Some(i);
        }
        i = i + 1;
    }
    assert(entries@.take(total as int) =~= entries@);
    r
}

/// The lyrics of a directory: the timed file's, and where that one is blank or
/// cannot be read the plain file's, trimmed.
pub fn sidecar_lyrics(lrc: Option<String>, txt: Option<String>) -> (r: Option<String>)
    ensures
        text::opt_text(r) == lyrics_tags::first_real(
            seq![text::opt_text(lrc), text::opt_text(txt)],
        ),
{
    let ghost values = seq![text::opt_text(lrc), text::opt_text(txt)];
    proof {
        reveal_with_fuel(lyrics_tags::first_real, 3);
        assert(values.drop_first() =~= seq![text::opt_text(txt)]);
        assert(values.drop_first().drop_first() =~= seq![]);
    }
    match trimmed_value(lrc) {
        Some(s) => Some(s),
        None => trimmed_value(txt),
    }
}

/// The first of them that there is.
pub open spec fn first_found(values: Seq<Option<Seq<char>>>) -> Option<Seq<char>>
    decreases values.len(),
{
    if values.len() == 0 {
        None
    } else {
        match values[0] {
            Some(v) => Some(v),
            None => first_found(values.drop_first()),
        }
    }
}

/// What the folders below the track's own hold, each.
pub open spec fn texts(values: Seq<Option<String>>) -> Seq<Option<Seq<char>>> {
    values.map_values(|v: Option<String>| text::opt_text(v))
}

/// The lyrics beside a track: those of its own folder, and where that one has none
/// the first of the folders for lyrics below it, in the order in which they are listed.
pub fn sidecar_of_folders(own: Option<String>, below: Vec<Option<String>>) -> (r: Option<String>)
    ensures
        text::opt_text(r) == first_found(seq![text::opt_text(own)] + texts(below@)),
{
    let ghost all = seq![text::opt_text(own)] + texts(below@);
    assert(all.drop_first() =~= texts(below@));
    if own.is_some() {
        return own;
    }
    let mut i: usize = 0;
    assert(texts(below@).skip(0) =~= texts(below@));
    while i < below.len()
        invariant
            i <= below@.len(),
            first_found(texts(below@)) == first_found(texts(below@).skip(i as int)),
            first_found(all) == first_found(texts(below@)),
            all == seq![text::opt_text(own)] + texts(below@),
        decreases below@.len() - i,
    {
        assert(texts(below@).skip(i as int).drop_first() =~= texts(below@).skip(i + 1));
        assert(texts(below@).skip(i as int)[0] == text::opt_text(below@[i as int]));
        if below[i].is_some() {
            return clone_opt(&below[i]);
        }
        i = i + 1;
    }
    assert(texts(below@).skip(i as int) =~= seq![]);
    None
}

/// Lyrics in the track's own folder win over those of a folder below it.
pub proof fn the_own_folder_wins(own: Seq<char>, below: Seq<Option<Seq<char>>>)
    ensures
        first_found(seq![Some(own)] + below) == Some(own),
{
}

/// Whether a directory of this name, beside the track, may hold its lyrics.
pub fn is_lyrics_dir(name: &str) -> (r: bool)
    ensures
        r == text::same_ignoring_ascii_case(name@, "lyrics"@),
{
    same_text(name.to_ascii_lowercase().as_str(), "lyrics".to_ascii_lowercase().as_str())
}

/// A file beside the track: the track's directory and the file's name in it.
#[derive(PartialEq, Eq, Debug)]
pub struct SidecarPath {
    pub directory: String,
    pub name: String,
}

/// The name of the file beside a track that holds its lyrics.
pub open spec fn sidecar_name(stem: Seq<char>, plain: bool) -> Seq<char> {
    stem + "."@ + (if plain {
        "txt"@
    } else {
        "lrc"@
    })
}

/// Where a track's lyrics are written; nowhere for a path without a stem or
/// without a directory.
pub fn sidecar_path(stem: &Option<String>, directory: &Option<String>, plain: bool) -> (r: Option<
    SidecarPath,
>)
    ensures
        r is Some <==> stem is Some && directory is Some,
        r matches Some(p) ==> p.directory@ == (directory->0)@ && p.name@ == sidecar_name(
            (stem->0)@,
            plain,
        ),
{
    match (stem, directory) {
        (Some(s), Some(d)) => {
            let extension = if plain {
                "txt"
            } else {
                "lrc"
            };
            Some(
                SidecarPath { directory: d.clone(), name: around(s.as_str(), ".", extension) },
            )
        },
        _ => None,
    }
}

/// A written file is one of those that are read: beside a track of this stem it
/// is found under the extension that it was given.
pub proof fn a_written_sidecar_is_found(
    before: Seq<DirEntry>,
    written: DirEntry,
    stem: Seq<char>,
    plain: bool,
)
    requires
        written.is_file,
        written.stem matches Some(s) && s@ == stem,
        written.extension matches Some(x) && x@ == (if plain {
            "txt"@
        } else {
            "lrc"@
        }),
    ensures
        last_sidecar(
            before.push(written),
            stem,
            if plain {
                "txt"@
            } else {
                "lrc"@
            },
        ) == Some(before.len() as int),
{
    reveal_strlit("txt");
    reveal_strlit("lrc");
    assert(text::ascii_lowercase("txt"@) =~= "txt"@);
    assert(text::ascii_lowercase("lrc"@) =~= "lrc"@);
    assert(before.push(written).last() == written);
}

// Where lyrics are kept.

/// Where an edit goes, besides the cache.
#[derive(Clone, Copy, PartialEq, Eq, Debug, Structural)]
pub enum LyricsDestination {
    /// Into the file's own tag.
    Tag,
    /// Into a file beside the track.
    Sidecar,
    /// Nowhere else.
    DbOnly,
}

/// A destination's stored name.
pub open spec fn destination_name(d: LyricsDestination) -> Seq<char> {
    match d {
        LyricsDestination::Tag => "tag"@,
        LyricsDestination::Sidecar => "sidecar"@,
        LyricsDestination::DbOnly => "db_only"@,
    }
}

/// The destination that a stored name stands for.
pub open spec fn destination_named(s: Seq<char>) -> Option<LyricsDestination> {
    if s == "tag"@ {
        Some(LyricsDestination::Tag)
    } else if s == "sidecar"@ {
        Some(LyricsDestination::Sidecar)
    } else if s == "db_only"@ {
        Some(LyricsDestination::DbOnly)
    } else {
        None
    }
}

impl LyricsDestination {
    /// The destination's stored name.
    pub fn as_str(self) -> (r: &'static str)
        ensures
            r@ == destination_name(self),
    {
        match self {
            LyricsDestination::Tag => "tag",
            LyricsDestination::Sidecar => "sidecar",
            LyricsDestination::DbOnly => "db_only",
        }
    }

    /// The destination that a stored name stands for.
    pub fn parse(s: &str) -> (r: Option<LyricsDestination>)
        ensures
            r == destination_named(s@),
    {
        if same_text(s, "tag") {
            Some(LyricsDestination::Tag)
        } else if same_text(s, "sidecar") {
            Some(LyricsDestination::Sidecar)
        } else if same_text(s, "db_only") {
            Some(LyricsDestination::DbOnly)
        } else {
            None
        }
    }
}

/// Where an edit goes that says nothing of it.
pub fn default_destination() -> (r: LyricsDestination)
    ensures
        r == LyricsDestination::Tag,
{
    LyricsDestination::Tag
}

/// A destination reads back as it was stored.
pub proof fn a_stored_destination_reads_back(d: LyricsDestination)
    ensures
        destination_named(destination_name(d)) == Some(d),
{
    reveal_strlit("tag");
    reveal_strlit("sidecar");
    reveal_strlit("db_only");
    assert("tag"@.len() == 3);
    assert("sidecar"@[0] == 's');
    assert("db_only"@[0] == 'd');
}

/// The destination that a stored setting stands for: the tag where it stands
/// for none.
pub open spec fn destination_or_tag(value: Option<Seq<char>>) -> LyricsDestination {
    match value {
        Some(v) => match destination_named(v) {
            Some(d) => d,
            None => LyricsDestination::Tag,
        },
        None => LyricsDestination::Tag,
    }
}

/// The destination that a stored setting stands for.
pub fn read_default_destination(value: &Option<String>) -> (r: LyricsDestination)
    ensures
        r == destination_or_tag(text::opt_text(*value)),
{
    match value {
        Some(v) => match LyricsDestination::parse(v.as_str()) {
            Some(d) => d,
            None => LyricsDestination::Tag,
        },
        None => LyricsDestination::Tag,
    }
}

/// Whether fetched lyrics are also written beside the track: what came off the
/// network, is not blank and fits such a file, where the user wants such files.
/// A destination that could not be read wants none.
pub open spec fn is_exported(
    source: LyricsSource,
    content: Seq<char>,
    format: LyricsFormat,
    destination: Option<LyricsDestination>,
) -> bool {
    &&& source == LyricsSource::Api
    &&& !text::is_blank(content)
    &&& format != LyricsFormat::Ttml
    &&& destination == Some(LyricsDestination::Sidecar)
}

/// Whether fetched lyrics are also written beside the track.
pub fn export_fetched_sidecar(
    source: LyricsSource,
    content: &str,
    format: LyricsFormat,
    destination: Option<LyricsDestination>,
) -> (r: bool)
    ensures
        r == is_exported(source, content@, format, destination),
{
    match (source, destination) {
        (LyricsSource::Api, Some(LyricsDestination::Sidecar)) => {
            format != LyricsFormat::Ttml && !blank(content)
        },
        _ => false,
    }
}

/// Whether a name is among those of a directory.
pub open spec fn is_taken(names: Seq<String>, name: Seq<char>) -> bool {
    exists|i: int| 0 <= i < names.len() && (#[trigger] names[i])@ == name
}

fn taken(names: &Vec<String>, name: &str) -> (r: bool)
    ensures
        r == is_taken(names@, name@),
{
    let mut i: usize = 0;
    while i < names.len()
        invariant
            i <= names@.len(),
            forall|k: int| 0 <= k < i ==> (#[trigger] names@[k])@ != name@,
        decreases names@.len() - i,
    {
        if same_text(names[i].as_str(), name) {
            return true;
        }
        i = i + 1;
    }
    false
}

/// Where fetched lyrics are written beside one copy of the track: nowhere when
/// that copy already has lyrics beside it, or a file of that name, were it empty, is
/// already there. `names` are those of the directory's entries.
pub fn exported_sidecar(
    stem: &Option<String>,
    directory: &Option<String>,
    format: LyricsFormat,
    present: &Option<String>,
    names: &Vec<String>,
) -> (r: Option<SidecarPath>)
    ensures
        r is Some <==> stem is Some && directory is Some && present is None && !is_taken(
            names@,
            sidecar_name((stem->0)@, format == LyricsFormat::Plain),
        ),
        r matches Some(p) ==> p.directory@ == (directory->0)@ && p.name@ == sidecar_name(
            (stem->0)@,
            format == LyricsFormat::Plain,
        ),
{
    match present {
        Some(_) => None,
        None => match sidecar_path(stem, directory, format == LyricsFormat::Plain) {
            Some(path) => {
                if taken(names, path.name.as_str()) {
                    None
                } else {
                    Some(path)
                }
            },
            None => None,
        },
    }
}

/// A file beside a track is one with the track's stem and the extension, both whatever
/// their case; a directory is none.
pub proof fn a_sidecar_has_the_stem_and_the_extension(e: DirEntry, stem: Seq<char>, ext: Seq<char>)
    ensures
        is_sidecar(e, stem, ext) <==> e.is_file && e.stem is Some && e.extension is Some
            && text::ascii_lowercase(e.stem->0@) == text::ascii_lowercase(stem)
            && text::ascii_lowercase(e.extension->0@) == ext,
{
}

/// The file that is found is one of those beside the track, and the last of them; where
/// none is found there is none.
pub proof fn the_last_sidecar_is_found(entries: Seq<DirEntry>, stem: Seq<char>, ext: Seq<char>)
    ensures
        last_sidecar(entries, stem, ext) matches Some(i) ==> {
            &&& 0 <= i < entries.len()
            &&& is_sidecar(entries[i], stem, ext)
            &&& forall|j: int| i < j < entries.len() ==> !is_sidecar(#[trigger] entries[j], stem, ext)
        },
        last_sidecar(entries, stem, ext) is None ==> forall|j: int|
            0 <= j < entries.len() ==> !is_sidecar(#[trigger] entries[j], stem, ext),
    decreases entries.len(),
{
    if entries.len() > 0 && !is_sidecar(entries.last(), stem, ext) {
        let rest = entries.drop_last();
        the_last_sidecar_is_found(rest, stem, ext);
        assert forall|j: int| 0 <= j < rest.len() implies rest[j] == #[trigger] entries[j] by {}
    }
}

/// What is found is the first that there is, and nothing is found only where there is none.
pub proof fn the_first_there_is_is_found(values: Seq<Option<Seq<char>>>, k: int)
    requires
        0 <= k <= values.len(),
        forall|j: int| 0 <= j < k ==> (#[trigger] values[j]) is None,
        k < values.len() ==> values[k] is Some,
    ensures
        first_found(values) == (if k < values.len() {
            values[k]
        } else {
            None
        }),
    decreases values.len(),
{
    if values.len() > 0 && k > 0 {
        assert(values[0] is None);
        let rest = values.drop_first();
        assert forall|j: int| 0 <= j < k - 1 implies (#[trigger] rest[j]) is None by {
            assert(rest[j] == values[j + 1]);
        }
        the_first_there_is_is_found(rest, k - 1);
    }
}

/// A file beside a track is called what the track's file is, with the extension of plain
/// or of timed lyrics.
pub proof fn a_sidecar_is_called_after_its_track(stem: Seq<char>)
    ensures
        sidecar_name(stem, true) == stem + ".txt"@,
        sidecar_name(stem, false) == stem + ".lrc"@,
{
    reveal_strlit(".");
    reveal_strlit("txt");
    reveal_strlit("lrc");
    reveal_strlit(".txt");
    reveal_strlit(".lrc");
    assert(sidecar_name(stem, true) =~= stem + ".txt"@);
    assert(sidecar_name(stem, false) =~= stem + ".lrc"@);
}

/// The three destinations have these names, and anything else that is stored means the tag.
pub proof fn destinations_have_these_names(s: Seq<char>)
    ensures
        destination_name(LyricsDestination::Tag) == "tag"@,
        destination_name(LyricsDestination::Sidecar) == "sidecar"@,
        destination_name(LyricsDestination::DbOnly) == "db_only"@,
        s != "tag"@ && s != "sidecar"@ && s != "db_only"@ ==> destination_named(s) is None,
        destination_named(s) is None ==> destination_or_tag(Some(s)) == LyricsDestination::Tag,
        destination_named(s) matches Some(d) ==> destination_or_tag(Some(s)) == d,
        destination_or_tag(None) == LyricsDestination::Tag,
{
}

/// Fetched lyrics are also written beside the track exactly where they came off the network
/// with words in them, are no timed XML, and the user wants such files.
pub proof fn only_fetched_words_are_exported(
    source: LyricsSource,
    content: Seq<char>,
    format: LyricsFormat,
    destination: Option<LyricsDestination>,
)
    ensures
        is_exported(source, content, format, destination) <==> source == LyricsSource::Api && (
        exists|i: int| 0 <= i < content.len() && !text::is_white_space(#[trigger] content[i]))
            && format != LyricsFormat::Ttml && destination == Some(LyricsDestination::Sidecar),
{
}

/// A name is taken where the directory lists it.
pub proof fn a_listed_name_is_taken(names: Seq<String>, name: Seq<char>)
    ensures
        is_taken(names, name) <==> text::texts(names).contains(name),
{
    let all = text::texts(names);
    if is_taken(names, name) {
        let i = choose|i: int| 0 <= i < names.len() && (#[trigger] names[i])@ == name;
        assert(all[i] == name);
    }
    if all.contains(name) {
        let i = choose|i: int| 0 <= i < all.len() && all[i] == name;
        assert(names[i]@ == name);
    }
}

/// A place in a directory is that place, and the lyrics of the places below are taken in
/// their order.
pub proof fn places_are_taken_in_order(i: usize, values: Seq<Option<String>>)
    ensures
        opt_index(Some(i)) == Some(i as int),
        opt_index(None) is None,
        texts(values).len() == values.len(),
        forall|k: int|
            0 <= k < values.len() ==> {
                &&& values[k] is Some ==> #[trigger] texts(values)[k] == Some(values[k]->0@)
                &&& values[k] is None ==> texts(values)[k] is None
            },
{
}

} // verus!
