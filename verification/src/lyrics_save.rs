//! Lyrics that the user edits, and the settings of lyrics.

use vstd::prelude::*;

use crate::error;
use crate::error::AppError;
use crate::lyrics;
use crate::lyrics::{upsert_lyrics, CacheWrite, LyricsPayload};
use crate::lyrics_format;
use crate::lyrics_format::{detect_format, LyricsFormat, LyricsSource};
use crate::lyrics_sidecar;
use crate::lyrics_sidecar::LyricsDestination;
use crate::settings;
use crate::settings::{switch_or, unless_blank, SettingWrite, ValueKind};
use crate::text;
use crate::text::{around, blank, drop_tail, same_text};

verus! {

/// Where the language of translations is kept.
pub const TRANSLATION_LANG_KEY: &'static str = "lyrics.translation_lang";

/// Where it is kept whether the network comes before the user's own files.
pub const PREFER_LRCLIB_KEY: &'static str = "lyrics.prefer_lrclib";

/// Where it is kept where edits go.
pub const LYRICS_DEFAULT_DESTINATION_KEY: &'static str = "lyrics.default_destination";

/// What the editor says that its content is.
#[derive(Clone, Copy, PartialEq, Eq, Debug, Structural)]
pub enum LyricsSaveFormat {
    Plain,
    Lrc,
    EnhancedLrc,
    Ttml,
}

/// An edit to be saved.
#[derive(PartialEq, Eq, Debug)]
pub struct SaveLyricsPayload {
    pub content: String,
    pub format: LyricsSaveFormat,
    pub destination: LyricsDestination,
}

/// The format that an edit is saved in: plain and TTML as the editor says, and
/// otherwise what the content looks like.
pub open spec fn saved_format(declared: LyricsSaveFormat, content: Seq<char>) -> LyricsFormat {
    match declared {
        LyricsSaveFormat::Plain => LyricsFormat::Plain,
        LyricsSaveFormat::Ttml => LyricsFormat::Ttml,
        _ => lyrics_format::sniffed(content),
    }
}

/// What is to be done on disk for an edit.
#[derive(Clone, Copy, PartialEq, Eq, Debug, Structural)]
pub enum FileWrite {
    /// The tag of the track's file is written, after playback has been paused
    /// where that file is playing.
    Tag { pause: bool },
    /// A file beside the track is written.
    Sidecar { plain: bool },
    /// No file beside the track can carry the edit.
    SidecarSkipped,
    /// Nothing.
    Nothing,
}

/// What saving an edit starts with.
#[derive(PartialEq, Eq, Debug)]
pub struct SavePlan {
    pub content: String,
    pub format: LyricsFormat,
    pub write: FileWrite,
}

/// What is to be done on disk for an edit.
pub open spec fn file_write(
    destination: LyricsDestination,
    format: LyricsFormat,
    playing: bool,
) -> FileWrite {
    match destination {
        LyricsDestination::Tag => FileWrite::Tag { pause: playing },
        LyricsDestination::Sidecar => if format == LyricsFormat::Ttml {
            FileWrite::SidecarSkipped
        } else {
            FileWrite::Sidecar { plain: format == LyricsFormat::Plain }
        },
        LyricsDestination::DbOnly => FileWrite::Nothing,
    }
}

/// What saving an edit starts with.
pub fn save_lyrics(track_id: i64, edit: &SaveLyricsPayload, playing_track_id: i64) -> (r: SavePlan)
    ensures
        r.content@ == text::without_tail(edit.content@),
        r.format == saved_format(edit.format, r.content@),
        r.write == file_write(edit.destination, r.format, playing_track_id == track_id),
{
    let content = drop_tail(edit.content.as_str());
    let format = match edit.format {
        LyricsSaveFormat::Plain => LyricsFormat::Plain,
        LyricsSaveFormat::Ttml => LyricsFormat::Ttml,
        _ => detect_format(content.as_str()),
    };
    let write = match edit.destination {
        LyricsDestination::Tag => FileWrite::Tag { pause: playing_track_id == track_id },
        LyricsDestination::Sidecar => {
            if format == LyricsFormat::Ttml {
                FileWrite::SidecarSkipped
            } else {
                FileWrite::Sidecar { plain: format == LyricsFormat::Plain }
            }
        },
        LyricsDestination::DbOnly => FileWrite::Nothing,
    };
    SavePlan { content, format, write }
}

/// A track whose file got a new hash when its tag was written.
#[derive(PartialEq, Eq, Debug)]
pub struct Rehash {
    /// The hash that the track has from now on.
    pub new_hash: String,
    /// The hash under which its lyrics are no longer looked for.
    pub forgotten: String,
}

/// What saving an edit ends with.
#[derive(PartialEq, Eq, Debug)]
pub struct Saved {
    /// Where the file changed, what becomes of its hash. It comes first.
    pub rehash: Option<Rehash>,
    /// What goes into the cache.
    pub write: CacheWrite,
    /// What the interface is told.
    pub told: LyricsPayload,
}

/// The hash of a file once an edit is saved: a tag that could carry the edit
/// changes the file, and nothing else does.
pub open spec fn hash_after(
    file_hash: Seq<char>,
    write: FileWrite,
    new_hash: Option<Seq<char>>,
) -> Seq<char> {
    match new_hash {
        Some(h) => if write is Tag {
            h
        } else {
            file_hash
        },
        None => file_hash,
    }
}

/// What saving an edit ends with, once the disk is done with. `new_hash` is the
/// hash of the file after its tag was written, and nothing where the tag could not
/// carry the edit. What was cached under the earlier hash is forgotten, and the
/// edit is kept under the hash that the file now has.
pub fn finish_save(
    track_id: i64,
    file_hash: &str,
    plan: SavePlan,
    new_hash: Option<String>,
    now: i64,
) -> (r: Saved)
    ensures
        match new_hash {
            Some(h) => if plan.write is Tag {
                r.rehash matches Some(x) && x.new_hash@ == h@ && x.forgotten@ == file_hash@
            } else {
                r.rehash is None
            },
            None => r.rehash is None,
        },
        r.write@ == (lyrics::CachedNote {
            row: lyrics::row_of(
                hash_after(file_hash@, plan.write, text::opt_text(new_hash)),
                plan.content@,
                plan.format,
                LyricsSource::Manual,
                None,
                None,
                now,
            ),
            associated: seq![],
        }),
        r.told@ == saved(track_id, plan.content@, plan.format, plan.write, new_hash is Some),
{
    let source = LyricsSource::Manual;
    let is_tag = match plan.write {
        FileWrite::Tag { .. } => true,
        _ => false,
    };
    let tag_written = new_hash.is_some();
    let rehash = match new_hash {
        Some(h) => if is_tag {
            Some(Rehash { new_hash: h, forgotten: file_hash.to_owned() })
        } else {
            None
        },
        None => None,
    };
    let hash = match &rehash {
        Some(x) => x.new_hash.as_str(),
        None => file_hash,
    };
    let write = upsert_lyrics(hash, plan.content.as_str(), &plan.format, &source, None, now);
    let skipped = is_tag && !tag_written;
    let told = LyricsPayload {
        track_id,
        content: plan.content,
        format: plan.format,
        source,
        provider: None,
        tag_write_skipped: if skipped {
            Some(true)
        } else {
            None
        },
        sidecar_write_skipped: if plan.write == FileWrite::SidecarSkipped {
            Some(true)
        } else {
            None
        },
        associated: Vec::new(),
    };
    assert(told@.associated =~= seq![]);
    Saved { rehash, write, told }
}

/// What the interface is told of a saved edit.
pub open spec fn saved(
    track_id: i64,
    content: Seq<char>,
    format: LyricsFormat,
    write: FileWrite,
    tag_written: bool,
) -> lyrics::PayloadNote {
    lyrics::PayloadNote {
        tag_write_skipped: if write is Tag && !tag_written {
            Some(true)
        } else {
            None
        },
        sidecar_write_skipped: if write is SidecarSkipped {
            Some(true)
        } else {
            None
        },
        ..lyrics::single(track_id, content, format, LyricsSource::Manual, None)
    }
}

/// A saved edit is what is read from the cache afterwards, wherever else it went
/// or could not go.
pub proof fn a_saved_edit_reads_back(
    track_id: i64,
    file_hash: Seq<char>,
    content: Seq<char>,
    format: LyricsFormat,
    write: FileWrite,
    tag_written: bool,
    now: i64,
)
    ensures
        ({
            let read = lyrics::cached_read(
                track_id,
                (lyrics::CachedNote {
                    row: lyrics::row_of(
                        file_hash,
                        content,
                        format,
                        LyricsSource::Manual,
                        None,
                        None,
                        now,
                    ),
                    associated: seq![],
                }),
            );
            let told = saved(track_id, content, format, write, tag_written);
            &&& read.content == told.content
            &&& read.format == told.format
            &&& read.source == told.source
            &&& read.provider == told.provider
            &&& read.associated == told.associated
        }),
{
    lyrics::a_cached_answer_reads_back(
        track_id,
        file_hash,
        content,
        format,
        LyricsSource::Manual,
        None,
        now,
    );
}

/// An edit that the user declares plain is never taken for timed lyrics, and
/// one that is declared TTML stays TTML.
pub proof fn a_declared_choice_is_honoured(content: Seq<char>)
    ensures
        saved_format(LyricsSaveFormat::Plain, content) == LyricsFormat::Plain,
        saved_format(LyricsSaveFormat::Ttml, content) == LyricsFormat::Ttml,
{
}

/// An edit is not written beside the track a second time as a fetched answer
/// would be.
pub proof fn an_edit_is_not_exported(
    content: Seq<char>,
    format: LyricsFormat,
    destination: Option<LyricsDestination>,
)
    ensures
        !lyrics_sidecar::is_exported(LyricsSource::Manual, content, format, destination),
{
}

// Settings.

/// The languages that lyrics can be translated into.
pub open spec fn translation_langs() -> Seq<Seq<char>> {
    seq![
        "en"@, "es"@, "de"@, "it"@, "nl"@, "pt"@, "ru"@, "tr"@, "id"@, "ja"@, "ko"@, "zh-CN"@,
        "zh-TW"@, "ar"@, "hi"@, "fr"@,
    ]
}

/// The languages that lyrics can be translated into.
pub fn supported_translation_langs() -> (v: Vec<&'static str>)
    ensures
        crate::lyrics_tags::str_texts(v@) == translation_langs(),
{
    let v = vec![
        "en", "es", "de", "it", "nl", "pt", "ru", "tr", "id", "ja", "ko", "zh-CN", "zh-TW", "ar",
        "hi", "fr",
    ];
    assert(crate::lyrics_tags::str_texts(v@) =~= translation_langs());
    v
}

fn is_supported(lang: &str) -> (r: bool)
    ensures
        r == translation_langs().contains(lang@),
{
    let v = supported_translation_langs();
    let total: usize = v.len();
    let mut i: usize = 0;
    assert(crate::lyrics_tags::str_texts(v@).len() == v@.len());
    while i < total
        invariant
            total == v@.len(),
            total == translation_langs().len(),
            crate::lyrics_tags::str_texts(v@) == translation_langs(),
            i <= total,
            forall|j: int| 0 <= j < i ==> #[trigger] translation_langs()[j] != lang@,
        decreases total - i,
    {
        assert(crate::lyrics_tags::str_texts(v@)[i as int] == v@[i as int]@);
        if same_text(v[i], lang) {
            assert(translation_langs()[i as int] == lang@);
            return true;
        }
        i = i + 1;
    }
    false
}

/// The language that a stored setting stands for: none where it is blank.
pub fn read_translation_lang(value: Option<String>) -> (r: Option<String>)
    ensures
        r == (match value {
            Some(v) if !text::is_blank(v@) => Some(v),
            _ => None,
        }),
{
    unless_blank(value)
}

/// The language that a request for one stands for: none where it is blank.
pub open spec fn requested_lang(lang: Option<Seq<char>>) -> Option<Seq<char>> {
    match lang {
        Some(l) if !text::is_blank(l) => Some(text::trimmed(l)),
        _ => None,
    }
}

/// The change to the settings for a requested language, with the language.
pub fn set_lyrics_translation_lang(lang: &Option<String>) -> (r: Result<
    (SettingWrite, Option<String>),
    AppError,
>)
    ensures
        match requested_lang(text::opt_text(*lang)) {
            Some(l) => if translation_langs().contains(l) {
                &&& r matches Ok((w, Some(set)))
                &&& set@ == l
                &&& w@ == (settings::SettingNote::Put {
                    key: "lyrics.translation_lang"@,
                    value: l,
                    kind: ValueKind::Text,
                })
            } else {
                r matches Err(e) && error::says(
                    e,
                    "set_lyrics_translation_lang: unsupported language '"@ + l + "'"@,
                )
            },
            None => {
                &&& r matches Ok((w, None))
                &&& w@ == (settings::SettingNote::Remove { key: "lyrics.translation_lang"@ })
            },
        },
{
    let mut wanted: Option<String> = None;
    if let Some(l) = lang {
        if !blank(l.as_str()) {
            wanted = Some(l.as_str().trim().to_owned());
        }
    }
    match wanted {
        Some(l) => {
            if is_supported(l.as_str()) {
                Ok(
                    (
                        SettingWrite::Put {
                            key: TRANSLATION_LANG_KEY.to_owned(),
                            value: l.clone(),
                            kind: ValueKind::Text,
                        },
                        Some(l),
                    ),
                )
            } else {
                Err(
                    AppError::Other(
                        around(
                            "set_lyrics_translation_lang: unsupported language '",
                            l.as_str(),
                            "'",
                        ),
                    ),
                )
            }
        },
        None => Ok((SettingWrite::Remove { key: TRANSLATION_LANG_KEY.to_owned() }, None)),
    }
}

/// Whether the network comes before the user's own files: not unless a stored
/// setting says so.
pub fn read_prefer_lrclib(value: &Option<String>) -> (r: bool)
    ensures
        r == settings::on_or(text::opt_text(*value), false),
{
    switch_or(value, false)
}

/// The change to the settings that has the network come first, or not.
pub open spec fn prefer_change(enabled: bool) -> settings::SettingNote {
    if enabled {
        settings::SettingNote::Put {
            key: "lyrics.prefer_lrclib"@,
            value: "true"@,
            kind: ValueKind::Bool,
        }
    } else {
        settings::SettingNote::Remove { key: "lyrics.prefer_lrclib"@ }
    }
}

/// The change to the settings that has the network come first, or not.
pub fn set_prefer_lrclib(enabled: bool) -> (w: SettingWrite)
    ensures
        w@ == prefer_change(enabled),
{
    if enabled {
        SettingWrite::Put {
            key: PREFER_LRCLIB_KEY.to_owned(),
            value: "true".to_owned(),
            kind: ValueKind::Bool,
        }
    } else {
        SettingWrite::Remove { key: PREFER_LRCLIB_KEY.to_owned() }
    }
}

/// The preference for the network reads back as it was set.
pub proof fn a_set_preference_reads_back(
    settings: Map<Seq<char>, Seq<char>>,
    enabled: bool,
)
    ensures
        settings::on_or(
            settings::setting(
                settings::settings_after(settings, prefer_change(enabled)),
                "lyrics.prefer_lrclib"@,
            ),
            false,
        ) == enabled,
{
}

/// The change to the settings for where edits go.
pub fn set_lyrics_default_destination(destination: &str) -> (r: Result<
    (SettingWrite, LyricsDestination),
    AppError,
>)
    ensures
        match lyrics_sidecar::destination_named(destination@) {
            Some(d) => {
                &&& r matches Ok((w, set))
                &&& set == d
                &&& w@ == (settings::SettingNote::Put {
                    key: "lyrics.default_destination"@,
                    value: destination@,
                    kind: ValueKind::Text,
                })
            },
            None => r matches Err(e) && error::says(
                e,
                "set_lyrics_default_destination: unsupported value '"@ + destination@
                    + "' (expected tag, sidecar, db_only)"@,
            ),
        },
{
    match LyricsDestination::parse(destination) {
        Some(d) => Ok(
            (
                SettingWrite::Put {
                    key: LYRICS_DEFAULT_DESTINATION_KEY.to_owned(),
                    value: d.as_str().to_owned(),
                    kind: ValueKind::Text,
                },
                d,
            ),
        ),
        None => Err(
            AppError::Other(
                around(
                    "set_lyrics_default_destination: unsupported value '",
                    destination,
                    "' (expected tag, sidecar, db_only)",
                ),
            ),
        ),
    }
}

/// Whether lyrics can be exported to a path: it has a parent, which is there
/// unless it is the current directory. `parent` is the parent's text with
/// whether it exists.
pub fn export_lyrics_to_path(target: &str, parent: &Option<(String, bool)>) -> (r: Result<
    (),
    AppError,
>)
    ensures
        match *parent {
            None => r matches Err(e) && error::says(
                e,
                "export_lyrics_to_path: target has no parent: "@ + target@,
            ),
            Some((p, exists)) => if p@.len() > 0 && !exists {
                r matches Err(e) && error::says(
                    e,
                    "export_lyrics_to_path: parent directory does not exist: "@ + p@,
                )
            } else {
                r is Ok
            },
        },
{
    proof {
        reveal_strlit("");
    }
    match parent {
        None => {
            let m = around("export_lyrics_to_path: target has no parent: ", target, "");
            assert(m@ =~= "export_lyrics_to_path: target has no parent: "@ + target@);
            Err(AppError::Other(m))
        },
        Some((p, exists)) => {
            if !*exists && !same_text(p.as_str(), "") {
                let m = around(
                    "export_lyrics_to_path: parent directory does not exist: ",
                    p.as_str(),
                    "",
                );
                assert(m@ =~= "export_lyrics_to_path: parent directory does not exist: "@ + p@);
                assert(p@.len() > 0) by {
                    if p@.len() == 0 {
                        assert(p@ =~= ""@);
                    }
                }
                Err(AppError::Other(m))
            } else {
                Ok(())
            }
        },
    }
}

/// An edit that is declared timed is saved as what it looks like.
pub proof fn a_timed_edit_is_saved_as_it_looks(content: Seq<char>)
    ensures
        saved_format(LyricsSaveFormat::Lrc, content) == lyrics_format::sniffed(content),
        saved_format(LyricsSaveFormat::EnhancedLrc, content) == lyrics_format::sniffed(content),
{
}

/// An edit goes where the user wants it: into the tag, with playback paused exactly where
/// the file is playing, into a file beside the track that is plain exactly where the edit
/// is, or nowhere. Timed XML has no file beside the track.
pub proof fn an_edit_goes_where_it_is_wanted(format: LyricsFormat, playing: bool)
    ensures
        file_write(LyricsDestination::Tag, format, playing) == (FileWrite::Tag { pause: playing }),
        format != LyricsFormat::Ttml ==> file_write(LyricsDestination::Sidecar, format, playing)
            == (FileWrite::Sidecar { plain: format == LyricsFormat::Plain }),
        file_write(LyricsDestination::Sidecar, LyricsFormat::Ttml, playing)
            == FileWrite::SidecarSkipped,
        file_write(LyricsDestination::DbOnly, format, playing) == FileWrite::Nothing,
{
}

/// An edit is kept under the hash that the file has once it is saved: the new one where its
/// tag was written, and else the one that it had.
pub proof fn an_edit_is_kept_under_the_files_hash(
    file_hash: Seq<char>,
    write: FileWrite,
    new_hash: Seq<char>,
)
    ensures
        hash_after(file_hash, write, None) == file_hash,
        write is Tag ==> hash_after(file_hash, write, Some(new_hash)) == new_hash,
        !(write is Tag) ==> hash_after(file_hash, write, Some(new_hash)) == file_hash,
{
}

/// What is told of a saved edit is the edit, as the user's own, with what could not be
/// written: a tag that was to be written and was not, or a file that could not carry it.
pub proof fn a_saved_edit_is_told(
    track_id: i64,
    content: Seq<char>,
    format: LyricsFormat,
    write: FileWrite,
    tag_written: bool,
)
    ensures
        ({
            let p = saved(track_id, content, format, write, tag_written);
            &&& p.track_id == track_id
            &&& p.content == content
            &&& p.format == format
            &&& p.source == LyricsSource::Manual
            &&& p.provider is None
            &&& p.associated.len() == 0
            &&& p.tag_write_skipped == Some(true) <==> write is Tag && !tag_written
            &&& p.tag_write_skipped is Some ==> p.tag_write_skipped == Some(true)
            &&& p.sidecar_write_skipped == Some(true) <==> write is SidecarSkipped
            &&& p.sidecar_write_skipped is Some ==> p.sidecar_write_skipped == Some(true)
        }),
{
}

/// Lyrics can be translated into these sixteen languages and no other.
pub proof fn these_languages_are_supported(lang: Seq<char>)
    ensures
        translation_langs().len() == 16,
        translation_langs().contains(lang) <==> lang == "en"@ || lang == "es"@ || lang == "de"@
            || lang == "it"@ || lang == "nl"@ || lang == "pt"@ || lang == "ru"@ || lang == "tr"@
            || lang == "id"@ || lang == "ja"@ || lang == "ko"@ || lang == "zh-CN"@ || lang
            == "zh-TW"@ || lang == "ar"@ || lang == "hi"@ || lang == "fr"@,
{
    let all = translation_langs();
    assert(all[0] == "en"@ && all[1] == "es"@ && all[2] == "de"@ && all[3] == "it"@);
    assert(all[4] == "nl"@ && all[5] == "pt"@ && all[6] == "ru"@ && all[7] == "tr"@);
    assert(all[8] == "id"@ && all[9] == "ja"@ && all[10] == "ko"@ && all[11] == "zh-CN"@);
    assert(all[12] == "zh-TW"@ && all[13] == "ar"@ && all[14] == "hi"@ && all[15] == "fr"@);
}

/// A requested language is taken without its margins, and a blank one is none.
pub proof fn a_requested_language_is_trimmed(a: Seq<char>, lang: Seq<char>, b: Seq<char>)
    requires
        text::is_blank(a),
        text::is_blank(b),
        lang.len() > 0 && !text::is_white_space(lang[0]) && !text::is_white_space(lang.last()),
    ensures
        requested_lang(Some(a + lang + b)) == Some(lang),
        requested_lang(Some(a)) is None,
        requested_lang(None) is None,
{
    text::margins_are_trimmed(a, lang, b);
    let s = a + lang + b;
    assert(s[a.len() as int] == lang[0]);
}

} // verus!
