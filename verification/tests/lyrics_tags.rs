//! Lyrics in the tags of a file.

use id3::TagLike;
use lofty::id3::v2::{Frame, Id3v2Tag};
use lofty::ogg::tag::VorbisComments;
use lofty::tag::{ItemKey, Tag, TagType};

use waveflow_commands::lyrics_format::{detect_format, LyricsFormat, LyricsSource};
use waveflow_commands::lyrics_stamp::{restamp_id3v2, restamp_vorbis};
use waveflow_commands::lyrics_stamp_dsf::restamp_dsf;
use waveflow_commands::lyrics_tags::{
    first_not_blank, is_service_blurb, known_key_lyrics, read_description_lyrics, read_id3v2_txxx,
    read_local_after_embedded, read_tag_description, read_vorbis_comment, resolve_embedded_lyrics,
    synced_lyrics_keys, unsynced_lyrics_keys, wants_custom_unsynced, write_lyrics_to_file,
    Container, CustomTag, LyricsSlot, StampedTag, TagWrite,
};

#[test]
fn a_cached_blurb_is_recognised_by_the_same_test_that_refuses_it() {
    let blurb = "Provided to YouTube by Some Label\n\nSong · Artist\n\nAlbum";
    assert!(is_service_blurb(blurb), "refused on the way in");
    assert!(!is_service_blurb("Real lyrics\nsecond line"));
}

#[test]
fn a_youtube_credit_is_not_lyrics() {
    let blurb = "Provided to YouTube by RCA Records Label\n\n\
         Sorry · Nothing But Thieves\n\n\
         Broken Machine (Deluxe)\n\n\
         ℗ 2017 Sony Music Entertainment UK Limited\n\n\
         Released on: 2017-09-08";
    assert!(is_service_blurb(blurb));
    assert!(is_service_blurb("Auto-generated by YouTube.\nfoo\nbar\nbaz"));

    assert!(!is_service_blurb(
        "I found a love for me\nDarling just dive right in\nAnd follow my lead"
    ));
    assert!(!is_service_blurb(""));

    let long_song = "la la la\n".repeat(200) + "provided to youtube by nobody";
    assert!(!is_service_blurb(&long_song));
}

#[test]
fn embedded_lyrics_resolution_prioritizes_synced_and_skips_blanks() {
    let s = |x: &str| Some(x.to_string());

    assert_eq!(
        resolve_embedded_lyrics([s("[00:01.00]timed"), s("plain body"), None]),
        Some("[00:01.00]timed".to_string())
    );
    assert_eq!(
        resolve_embedded_lyrics([None, s("   \n\t  "), s("from txxx")]),
        Some("from txxx".to_string())
    );
    assert_eq!(
        resolve_embedded_lyrics([None, s("just words"), None]),
        Some("just words".to_string())
    );
    assert_eq!(resolve_embedded_lyrics([None, s("  "), s("\t")]), None);
    assert_eq!(detect_format("[00:01.00]timed"), LyricsFormat::Lrc);
}

#[test]
fn known_key_lyrics_falls_through_blank_uslt_to_lyrics() {
    let mut tag = Tag::new(TagType::VorbisComments);
    tag.insert_text(ItemKey::UnsyncLyrics, "   \n\t ".to_string());
    tag.insert_text(ItemKey::Lyrics, "real body".to_string());
    assert_eq!(known_key_lyrics(&tag), Some("real body".to_string()));

    let mut primary = Tag::new(TagType::VorbisComments);
    primary.insert_text(ItemKey::UnsyncLyrics, "from uslt".to_string());
    primary.insert_text(ItemKey::Lyrics, "from lyrics".to_string());
    assert_eq!(known_key_lyrics(&primary), Some("from uslt".to_string()));

    let mut blank = Tag::new(TagType::VorbisComments);
    blank.insert_text(ItemKey::UnsyncLyrics, "  ".to_string());
    blank.insert_text(ItemKey::Lyrics, "\t".to_string());
    assert_eq!(known_key_lyrics(&blank), None);
}

#[test]
fn synced_keys_match_vorbis_comments_case_insensitively() {
    let mut synced = VorbisComments::default();
    synced.push("SyncedLyrics".to_string(), "[00:01.00]timed".to_string());
    assert_eq!(
        synced_lyrics_keys().iter().find_map(|k| synced.get(k)),
        Some("[00:01.00]timed")
    );
    assert_eq!(
        read_vorbis_comment(&synced, &synced_lyrics_keys()),
        Some("[00:01.00]timed".to_string())
    );

    let mut plain = VorbisComments::default();
    plain.push("UNSYNCEDLYRICS".to_string(), "just words".to_string());
    assert!(synced_lyrics_keys().iter().find_map(|k| plain.get(k)).is_none());
    assert_eq!(
        unsynced_lyrics_keys().iter().find_map(|k| plain.get(k)),
        Some("just words")
    );
    assert_eq!(read_vorbis_comment(&plain, &synced_lyrics_keys()), None);
    assert_eq!(
        read_vorbis_comment(&plain, &unsynced_lyrics_keys()),
        Some("just words".to_string())
    );
}

#[test]
fn a_blank_comment_gives_way_to_the_next_spelling() {
    let mut c = VorbisComments::default();
    c.push("SYNCEDLYRICS".to_string(), "  ".to_string());
    c.push("lyrics_synced".to_string(), " [00:01.00]x ".to_string());
    assert_eq!(
        read_vorbis_comment(&c, &synced_lyrics_keys()),
        Some("[00:01.00]x".to_string())
    );
}

#[test]
fn a_vorbis_stamp_replaces_every_spelling() {
    let mut c = VorbisComments::default();
    c.push("TITLE".to_string(), "Song".to_string());
    c.push("synced lyrics".to_string(), "old".to_string());
    c.push("SYNCEDLYRICS".to_string(), "older".to_string());
    assert!(restamp_vorbis(&mut c, Some("[00:01.00]new")));
    assert_eq!(c.get("SYNCEDLYRICS"), Some("[00:01.00]new"));
    assert_eq!(c.get("SYNCED LYRICS"), None);
    assert_eq!(c.get("TITLE"), Some("Song"));
    assert_eq!(c.items().count(), 2);
    assert_eq!(
        read_vorbis_comment(&c, &synced_lyrics_keys()),
        Some("[00:01.00]new".to_string())
    );
}

#[test]
fn a_vorbis_stamp_that_goes_leaves_the_rest() {
    let mut c = VorbisComments::default();
    c.push("TITLE".to_string(), "Song".to_string());
    c.push("Synced_Lyrics".to_string(), "old".to_string());
    assert!(restamp_vorbis(&mut c, None));
    assert_eq!(read_vorbis_comment(&c, &synced_lyrics_keys()), None);
    assert_eq!(c.items().count(), 1);
    assert!(!restamp_vorbis(&mut c, None), "there was nothing left to change");
}

#[test]
fn an_id3v2_stamp_replaces_every_spelling() {
    let mut t = Id3v2Tag::new();
    t.insert_user_text("OTHER".to_string(), "kept".to_string());
    t.insert_user_text("SYNCED_LYRICS".to_string(), "old".to_string());
    assert_eq!(read_id3v2_txxx(&t, &synced_lyrics_keys()), Some("old".to_string()));
    assert!(restamp_id3v2(&mut t, Some("[00:01.00]new")));
    assert_eq!(t.get_user_text("SYNCED_LYRICS"), None);
    assert_eq!(t.get_user_text("SYNCEDLYRICS"), Some("[00:01.00]new"));
    assert_eq!(t.get_user_text("OTHER"), Some("kept"));
    assert_eq!(
        read_id3v2_txxx(&t, &synced_lyrics_keys()),
        Some("[00:01.00]new".to_string())
    );
    assert!(restamp_id3v2(&mut t, None));
    assert_eq!(read_id3v2_txxx(&t, &synced_lyrics_keys()), None);
    assert!(!restamp_id3v2(&mut t, None));
}

#[test]
fn an_id3v2_stamp_takes_the_place_of_all_that_were_there() {
    let stamped_twice = || {
        let mut t = Id3v2Tag::new();
        for description in ["SYNCEDLYRICS", "ONE", "TWO", "OTHER"] {
            t.insert_user_text(description.to_string(), description.to_lowercase());
        }
        t.retain_mut(|frame| {
            if let Frame::UserText(text) = frame {
                if text.description == "ONE" || text.description == "TWO" {
                    text.description = "SYNCEDLYRICS".into();
                }
            }
            true
        });
        assert_eq!(t.len(), 4);
        t
    };
    let mut t = stamped_twice();
    assert!(restamp_id3v2(&mut t, Some("[00:01.00]new")));
    assert_eq!(t.len(), 2);
    assert_eq!(
        read_id3v2_txxx(&t, &synced_lyrics_keys()),
        Some("[00:01.00]new".to_string())
    );
    let mut t = stamped_twice();
    assert!(restamp_id3v2(&mut t, None));
    assert_eq!(read_id3v2_txxx(&t, &synced_lyrics_keys()), None);
    assert_eq!(t.get_user_text("OTHER"), Some("other"));
}

#[test]
fn a_dsf_stamp_is_the_only_one_left() {
    let text = |description: &str, value: &str| id3::frame::ExtendedText {
        description: description.to_owned(),
        value: value.to_owned(),
    };
    let mut t = id3::Tag::new();
    t.add_frame(text("OTHER", "kept"));
    t.add_frame(text("LYRICS_SYNCED", "old"));
    assert!(restamp_dsf(&mut t, Some("[00:01.00]new")));
    let left: Vec<(String, String)> = t
        .extended_texts()
        .map(|x| (x.description.clone(), x.value.clone()))
        .collect();
    assert_eq!(
        left,
        vec![
            ("OTHER".to_owned(), "kept".to_owned()),
            ("SYNCEDLYRICS".to_owned(), "[00:01.00]new".to_owned()),
        ]
    );
    assert!(restamp_dsf(&mut t, None));
    assert_eq!(t.extended_texts().count(), 1);
    assert!(!restamp_dsf(&mut t, None));
}

#[test]
fn a_description_has_to_be_long_and_no_credit() {
    let d = |s: &str| read_description_lyrics(Some(s.to_owned()));
    assert_eq!(d("one\ntwo\nthree"), None);
    assert_eq!(d(" one\ntwo\nthree\nfour "), Some("one\ntwo\nthree\nfour".to_owned()));
    assert_eq!(d("Auto-generated by YouTube.\ntwo\nthree\nfour"), None);
    assert_eq!(d("\n\n\n\n\n"), None);
    assert_eq!(read_description_lyrics(None), None);

    let mut tag = Tag::new(TagType::VorbisComments);
    tag.insert_text(ItemKey::Description, "one\ntwo\nthree\nfour".to_string());
    assert_eq!(read_tag_description(&tag), Some("one\ntwo\nthree\nfour".to_owned()));
    assert_eq!(read_tag_description(&Tag::new(TagType::VorbisComments)), None);
}

#[test]
fn a_file_beside_the_track_beats_the_description() {
    let both = read_local_after_embedded(Some("side".to_owned()), Some("desc".to_owned()));
    assert_eq!(both, Some(("side".to_owned(), LyricsSource::LrcFile)));
    let one = read_local_after_embedded(None, Some("desc".to_owned()));
    assert_eq!(one, Some(("desc".to_owned(), LyricsSource::Embedded)));
    assert_eq!(read_local_after_embedded(None, None), None);
}

#[test]
fn the_custom_plain_keys_come_last() {
    let some = Some("x".to_owned());
    assert!(wants_custom_unsynced(&None, &None));
    assert!(!wants_custom_unsynced(&some, &None));
    assert!(!wants_custom_unsynced(&None, &some));
    assert_eq!(first_not_blank(Some(" ".to_owned()), some.clone()), some);
}

#[test]
fn only_timed_xml_finds_no_place() {
    let ttml = "<tt/>";
    assert_eq!(
        write_lyrics_to_file(Some(Container::Mpeg), ttml, LyricsFormat::Ttml),
        TagWrite::Skipped
    );
    assert_eq!(write_lyrics_to_file(None, ttml, LyricsFormat::Ttml), TagWrite::Skipped);
    assert_eq!(
        write_lyrics_to_file(Some(Container::Flac), ttml, LyricsFormat::Ttml),
        TagWrite::Written { slot: LyricsSlot::Arbitrary, stamp: false }
    );
    assert_eq!(
        write_lyrics_to_file(None, " ", LyricsFormat::Ttml),
        TagWrite::Written { slot: LyricsSlot::Cleared, stamp: false }
    );
    assert_eq!(
        write_lyrics_to_file(Some(Container::Mpeg), "[00:01.00]x", LyricsFormat::Lrc),
        TagWrite::Written { slot: LyricsSlot::Unsynchronised, stamp: true }
    );
    assert_eq!(
        write_lyrics_to_file(Some(Container::Mpeg), "x", LyricsFormat::Plain),
        TagWrite::Written { slot: LyricsSlot::Unsynchronised, stamp: false }
    );
}

#[test]
fn containers_keep_their_keys_where_they_do() {
    assert!(Container::Mp4.carries_arbitrary_lyrics());
    assert!(!Container::Dsf.carries_arbitrary_lyrics());
    assert_eq!(Container::Mpeg.custom_tag(), CustomTag::Id3v2);
    assert_eq!(Container::Opus.custom_tag(), CustomTag::Vorbis);
    assert_eq!(Container::Aac.custom_tag(), CustomTag::Unread);
    assert_eq!(Container::Aac.stamped_tag(), StampedTag::Id3v2);
    assert_eq!(Container::Dsf.stamped_tag(), StampedTag::DsfId3v2);
    assert_eq!(Container::Mp4.stamped_tag(), StampedTag::Unstamped);
}
