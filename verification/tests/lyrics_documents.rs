//! What lyrics are, and whether they can be followed.

use waveflow_commands::lyrics_format::{
    detect_format, document_is_what_it_claims, external_format_to_app, format_to_db, parse_format,
    parse_source, plugin_format_to_app, scan_digits, source_to_db, word_stamp_present,
    ExternalLyricsFormat, LyricsFormat, LyricsSource, PluginLyricsFormat,
};
use waveflow_commands::lyrics_sync::{
    has_timed_line, is_timed_element, lrc_has_line_stamp, lyrics_are_synced, ttml_has_timed_line,
    XmlElement, XmlEvent,
};
use waveflow_commands::ttml_time::begins_in_time;

#[test]
fn a_document_must_look_like_the_format_it_declares() {
    let lrc = "[00:12.00]Hello\n[00:15.00]World";
    let enhanced = "[00:12.00]<00:12.00>Hello <00:13.50>world";
    let ttml = "<tt xmlns=\"http://www.w3.org/ns/ttml\"><body><div><p>Hi</p></div></body></tt>";

    assert!(document_is_what_it_claims(lrc, LyricsFormat::Lrc));
    assert!(document_is_what_it_claims(enhanced, LyricsFormat::EnhancedLrc));
    assert!(document_is_what_it_claims(ttml, LyricsFormat::Ttml));
    assert!(document_is_what_it_claims("just words", LyricsFormat::Plain));

    assert!(!document_is_what_it_claims(ttml, LyricsFormat::Lrc));
    assert!(!document_is_what_it_claims("just words", LyricsFormat::Ttml));
    assert!(!document_is_what_it_claims(lrc, LyricsFormat::EnhancedLrc));

    assert!(!document_is_what_it_claims("", LyricsFormat::Plain));
    assert!(!document_is_what_it_claims("   \n  ", LyricsFormat::Lrc));
}

#[test]
fn detect_format_plain() {
    let sample = "This is just\nsome text without any timestamps.";
    assert_eq!(detect_format(sample), LyricsFormat::Plain);
}

#[test]
fn detect_format_lrc() {
    let sample = "[ar:Some Artist]\n[ti:Some Title]\n[00:01.00]First line\n[00:05.50]Second line";
    assert_eq!(detect_format(sample), LyricsFormat::Lrc);
}

#[test]
fn detect_format_enhanced_lrc() {
    let sample =
        "[00:01.00]<00:01.00>Hello <00:01.50>world\n[00:03.00]<00:03.00>Another <00:03.40>line";
    assert_eq!(detect_format(sample), LyricsFormat::EnhancedLrc);
}

#[test]
fn detect_format_enhanced_lrc_no_colon_frac() {
    let sample = "[00:01.00]<00:01>plain stamps still count";
    assert_eq!(detect_format(sample), LyricsFormat::EnhancedLrc);
}

#[test]
fn detect_format_ttml_xml_decl() {
    let sample = r#"<?xml version="1.0" encoding="UTF-8"?>
<tt xmlns="http://www.w3.org/ns/ttml">
  <body>
    <div>
      <p begin="00:00:01.000" end="00:00:03.000">
        <span begin="00:00:01.000" end="00:00:01.500">Hello</span>
        <span begin="00:00:01.500" end="00:00:03.000">world</span>
      </p>
    </div>
  </body>
</tt>"#;
    assert_eq!(detect_format(sample), LyricsFormat::Ttml);
}

#[test]
fn detect_format_ttml_no_decl() {
    let sample = r#"<tt xmlns="http://www.w3.org/ns/ttml"><body><div><p begin="0s">x</p></div></body></tt>"#;
    assert_eq!(detect_format(sample), LyricsFormat::Ttml);
}

#[test]
fn untimed_apple_ttml_is_not_synced() {
    let sample = r#"<tt xmlns="http://www.w3.org/ns/ttml" xmlns:itunes="http://music.apple.com/lyric-ttml-internal" itunes:timing="None" xml:lang="en"><head><metadata/></head><body><div><p>line one</p><p>line two</p></div></body></tt>"#;
    assert!(!lyrics_are_synced(&LyricsFormat::Ttml, sample));
}

#[test]
fn ttml_with_a_timed_line_is_synced() {
    let sample = r#"<tt xmlns="http://www.w3.org/ns/ttml"><body><div><p begin="00:01.000" end="00:02.000">line</p></div></body></tt>"#;
    assert!(lyrics_are_synced(&LyricsFormat::Ttml, sample));
}

#[test]
fn ttml_timed_only_on_spans_is_not_synced() {
    let sample = r#"<tt xmlns="http://www.w3.org/ns/ttml"><body><div><p><span begin="1s">word</span></p></div></body></tt>"#;
    assert!(!lyrics_are_synced(&LyricsFormat::Ttml, sample));
}

#[test]
fn prefixed_ttml_line_with_begin_is_synced() {
    let sample = r#"<tt:tt xmlns:tt="http://www.w3.org/ns/ttml"><tt:body><tt:div><tt:p begin="1s">line</tt:p></tt:div></tt:body></tt:tt>"#;
    assert!(lyrics_are_synced(&LyricsFormat::Ttml, sample));
}

#[test]
fn unparseable_ttml_is_not_synced() {
    assert!(!lyrics_are_synced(&LyricsFormat::Ttml, "<tt><p begin=\"1s\">"));
}

#[test]
fn ttml_begin_the_renderer_cannot_read_is_untimed() {
    for begin in ["", "   ", "soon", "1:2:3:4", "-5s"] {
        let sample = format!(
            r#"<tt xmlns="http://www.w3.org/ns/ttml"><body><div><p begin="{begin}">line</p></div></body></tt>"#
        );
        assert!(!lyrics_are_synced(&LyricsFormat::Ttml, &sample), "{begin:?}");
    }
    for begin in ["12.5s", "1500ms", "01:02.5", "01:02:03.4", "5"] {
        let sample = format!(
            r#"<tt xmlns="http://www.w3.org/ns/ttml"><body><div><p begin="{begin}">line</p></div></body></tt>"#
        );
        assert!(lyrics_are_synced(&LyricsFormat::Ttml, &sample), "{begin:?}");
    }
}

#[test]
fn ttml_with_a_malformed_attribute_is_not_synced() {
    let duplicate = r#"<tt xmlns="http://www.w3.org/ns/ttml"><body><div><p begin="1s" begin="2s">line</p></div></body></tt>"#;
    assert!(!lyrics_are_synced(&LyricsFormat::Ttml, duplicate));
    let elsewhere = r#"<tt xmlns="http://www.w3.org/ns/ttml"><body><div lang="en" lang="fr"><p begin="1s">line</p></div></body></tt>"#;
    assert!(!lyrics_are_synced(&LyricsFormat::Ttml, elsewhere));
}

#[test]
fn lrc_needs_a_complete_line_stamp() {
    assert!(lyrics_are_synced(&LyricsFormat::Lrc, "[00:01.00]x"));
    assert!(lyrics_are_synced(&LyricsFormat::Lrc, "[ar:Someone]\n[01:02]x"));
    assert!(lyrics_are_synced(&LyricsFormat::EnhancedLrc, "[00:01.00]<00:01.00>x"));
    assert!(!lyrics_are_synced(&LyricsFormat::Lrc, "[00:01x\nline"));
    assert!(!lyrics_are_synced(&LyricsFormat::Lrc, "[ar:Someone]\nline"));
    assert!(!lyrics_are_synced(&LyricsFormat::Plain, "x"));
}

#[test]
fn detect_format_brackets_but_no_timestamp_stays_plain() {
    let sample = "[ar:Artist]\n[ti:Title]\nVerse without timestamps.";
    assert_eq!(detect_format(sample), LyricsFormat::Plain);
}

#[test]
fn word_stamp_present_basic() {
    assert!(word_stamp_present("<00:01.50>word"));
    assert!(word_stamp_present("plain<5:00>more"));
    assert!(!word_stamp_present("nothing here"));
    assert!(!word_stamp_present("<not:a:stamp>"));
}

#[test]
fn digits_are_counted_from_where_they_start() {
    let chars: Vec<char> = "ab123c".chars().collect();
    assert_eq!(scan_digits(&chars, 2), 3);
    assert_eq!(scan_digits(&chars, 0), 0);
    assert_eq!(scan_digits(&chars, 6), 0);
}

#[test]
fn stored_formats_and_sources_read_back() {
    for format in [
        LyricsFormat::Plain,
        LyricsFormat::Lrc,
        LyricsFormat::EnhancedLrc,
        LyricsFormat::Ttml,
    ] {
        assert_eq!(parse_format(format_to_db(&format)), format);
    }
    for source in [
        LyricsSource::Embedded,
        LyricsSource::LrcFile,
        LyricsSource::Api,
        LyricsSource::Manual,
    ] {
        assert_eq!(parse_source(source_to_db(&source)), source);
    }
    assert_eq!(format_to_db(&LyricsFormat::EnhancedLrc), "enhanced_lrc");
    assert_eq!(source_to_db(&LyricsSource::LrcFile), "lrc_file");
    assert_eq!(parse_format("anything"), LyricsFormat::Plain);
}

#[test]
fn formats_from_outside_keep_their_meaning() {
    assert_eq!(external_format_to_app(ExternalLyricsFormat::Lrc), LyricsFormat::Lrc);
    assert_eq!(external_format_to_app(ExternalLyricsFormat::Plain), LyricsFormat::Plain);
    assert_eq!(plugin_format_to_app(PluginLyricsFormat::Ttml), LyricsFormat::Ttml);
    assert_eq!(plugin_format_to_app(PluginLyricsFormat::EnhancedLrc), LyricsFormat::EnhancedLrc);
}

#[test]
fn a_line_stamp_may_hold_digits_of_any_script() {
    assert!(lrc_has_line_stamp("[٠١:٠٢]x"));
    assert!(lrc_has_line_stamp("x [123:45:678] y"));
    assert!(!lrc_has_line_stamp("[1234:45]"));
    assert!(!lrc_has_line_stamp("[00:]"));
}

#[test]
fn times_are_read_as_numbers_are() {
    for good in ["0", "+1s", "1e3", " 2.5s ", "00:00", "1:2:3", ".5", "5.", "1.5ms", "s", "1::2"] {
        assert!(begins_in_time(good), "{good}");
    }
    for bad in ["-1", "1h", "a:b", "0:-2", "nan", "inf", "1e400s", "", " ", "1:2:3:4"] {
        assert!(!begins_in_time(bad), "{bad}");
    }
    assert!(begins_in_time("-0"));
}

fn by_floats(value: &str) -> bool {
    let number = |s: &str| -> Option<f64> {
        let t = s.trim();
        if t.is_empty() {
            return Some(0.0);
        }
        t.parse::<f64>().ok().filter(|n| n.is_finite())
    };
    let s = value.trim();
    let ms = if s.is_empty() {
        None
    } else if let Some(n) = s.strip_suffix("ms") {
        number(n)
    } else if let Some(n) = s.strip_suffix('s') {
        number(n).map(|v| v * 1000.0)
    } else if s.contains(':') {
        let parts: Vec<Option<f64>> = s.split(':').map(number).collect();
        match parts.as_slice() {
            [Some(m), Some(sec)] => Some(m * 60_000.0 + sec * 1000.0),
            [Some(h), Some(m), Some(sec)] => Some(h * 3_600_000.0 + m * 60_000.0 + sec * 1000.0),
            _ => None,
        }
    } else {
        number(s).map(|v| v * 1000.0)
    };
    ms.is_some_and(|ms| ms >= -0.5)
}

#[test]
fn times_agree_with_floating_point() {
    let numbers = [
        "", "0", "-0", "1", "-1", "+1", ".5", "-.5", "5.", ".", "-", "+", "e", "1e", "1e5", "1E5",
        "1e+5", "1e-5", "-1e-5", "-0.0005", "-0.0004", "-0.5", "-0.6", "-0.4999", "1e308", "1e309",
        "-1e309", "1e-400", "-1e-400", "179769313486231570e291", "179769313486231580e291", "1_0",
        "0x1", "nan", "NaN", "inf", "infinity", "-inf", "1.2.3", "--1", "1 2", " 7 ", "٣",
    ];
    for n in numbers {
        for text in [n.to_owned(), format!("{n}s"), format!("{n}ms"), format!(" {n} ")] {
            assert_eq!(begins_in_time(&text), by_floats(&text), "{text:?}");
        }
        for m in ["", "0", "1", "-1", "0.001", "x", "1e300"] {
            for text in [format!("{m}:{n}"), format!("{n}:{m}"), format!("{m}:{n}:{m}")] {
                assert_eq!(begins_in_time(&text), by_floats(&text), "{text:?}");
            }
        }
    }
}

#[test]
fn a_following_walks_the_elements() {
    let element = |name: &str, attributes: &str| XmlElement {
        name: name.to_owned(),
        attributes: attributes.to_owned(),
    };
    let timed = vec![
        XmlEvent::Start(element("tt", "")),
        XmlEvent::Start(element("x:p", " begin=\"1s\"")),
        XmlEvent::End,
        XmlEvent::End,
        XmlEvent::Eof,
    ];
    assert!(has_timed_line(&timed));
    let broken = vec![
        XmlEvent::Start(element("tt", "")),
        XmlEvent::Start(element("p", " begin=\"1s\"")),
        XmlEvent::Malformed,
    ];
    assert!(!has_timed_line(&broken));
    let pairs = Some(vec![("begin".to_owned(), "1s".to_owned())]);
    assert_eq!(is_timed_element("p", &pairs), Some(true));
    assert_eq!(is_timed_element("span", &pairs), Some(false));
    assert_eq!(is_timed_element("p", &None), None);
    assert!(ttml_has_timed_line("<p begin=\"3s\"/>"));
}

/// A time in milliseconds, in the machine's own double precision.
fn machine_time_ms(value: &str) -> Option<f64> {
    fn number(s: &str) -> Option<f64> {
        let t = s.trim();
        if t.is_empty() {
            return Some(0.0);
        }
        t.parse::<f64>().ok().filter(|n| n.is_finite())
    }
    let s = value.trim();
    if s.is_empty() {
        return None;
    }
    if let Some(n) = s.strip_suffix("ms") {
        return number(n);
    }
    if let Some(n) = s.strip_suffix('s') {
        return number(n).map(|v| v * 1000.0);
    }
    if s.contains(':') {
        let parts: Vec<&str> = s.split(':').collect();
        return match parts.as_slice() {
            [m, sec] => Some(number(m)? * 60_000.0 + number(sec)? * 1000.0),
            [h, m, sec] => {
                Some(number(h)? * 3_600_000.0 + number(m)? * 60_000.0 + number(sec)? * 1000.0)
            }
            _ => None,
        };
    }
    number(s).map(|v| v * 1000.0)
}

#[test]
fn times_are_weighed_in_double_precision() {
    assert!(begins_in_time("-.50000000000000001ms"));
    assert!(begins_in_time("-0.5ms"));
    assert!(!begins_in_time("-0.5000000000000002ms"));
    assert!(!begins_in_time("-0.501ms"));
    for value in [
        "-.50000000000000001ms",
        "-.500000000000000055511151231257827ms",
        "-.5000000000000000555111512312578271ms",
        "-.50000000000000005551115123125782702118158340454101562ms",
        "-.50000000000000005551115123125782702118158340454101563ms",
        "-.0005s",
        "-.00050000000000000001s",
        "-.00050000000000000011s",
        "-.0005000000000000001",
        "-.00050000000000000005",
        "-.00050000000000000004",
        "-.00050000000000000006",
        "-1:59.9995",
        "-1:59.99949999999999",
        "-1:60",
        "-1:59.9994",
        "-0.1:5.9995",
        "-0.1:6",
        "-0.7:41.9995",
        "1:-60.0005",
        "1:-60.00050000000001",
        "1:-60.000500000000001",
        "-1:59:59.9995",
        "-1:60:-0.0005",
        "1:-60:-0.0005",
        "0.1:-6:-0.00050000000000001",
        "0.3:-18:0",
        "-0.3:18:0",
        "1e308:-1e308",
        "-1e308:1e308",
        "1e308s",
        "-1e308s",
        "1e308:0",
        "-1e400ms",
        "-1e-400ms",
        "-4.9e-324ms",
        "-2e-324ms",
        "1.7976931348623158e308ms",
        "-1.7976931348623158e308ms",
        "1.7976931348623159e308ms",
        "-1.7976931348623157e308",
        "-0",
        "-:1",
        "-.ms",
        "-ms",
        "-inf",
        "nan",
        "-1e5:6e6",
        "-1e5:5999999.9995",
        "-1e20:6e21",
        "-123456789.123456789:7407407347.40740734",
    ] {
        let machine = machine_time_ms(value).is_some_and(|ms| ms >= -0.5);
        assert_eq!(begins_in_time(value), machine, "{value}");
    }
}

#[test]
fn stamps_need_their_seconds() {
    assert_eq!(detect_format("[00:ab]cd"), LyricsFormat::Plain);
    assert_eq!(detect_format("[00:1]cdef"), LyricsFormat::Lrc);
    assert_eq!(detect_format("[00:5.00]ab"), LyricsFormat::Lrc);
    assert_eq!(detect_format("[00:1]"), LyricsFormat::Plain);
    assert_eq!(detect_format("[00:12]cd"), LyricsFormat::Lrc);
    assert!(!word_stamp_present("<1:2.>"));
    assert!(!word_stamp_present("<1:2:>"));
    assert!(word_stamp_present("<1:2>"));
    assert!(word_stamp_present("<1:2.5>"));
    assert!(word_stamp_present("<1:2:5>"));
    assert_eq!(scan_digits(&"12a".chars().collect(), 0), 2);
    assert_eq!(scan_digits(&"12a".chars().collect(), 9), 0);
}
