//! Whether lyrics can be followed: whether the renderer would find anything
//! timed in them.

use vstd::prelude::*;

use quick_xml::events::attributes::{Attribute, Attributes};
use quick_xml::events::{BytesStart, Event};

use crate::lyrics_format;
use crate::lyrics_format::LyricsFormat;
use crate::text;
use crate::text::{chars_of, index_from, same_text, string_of};
use crate::ttml_time;
use crate::ttml_time::begins_in_time;

verus! {

/// A complete line stamp, as a regular expression.
pub const LINE_STAMP: &'static str = r"\[(\d{1,3}):(\d{1,2})(?:[.:](\d{1,3}))?\]";

/// Whether a regular expression, in the syntax of the `regex` crate, matches
/// somewhere in a text; nothing when it is no expression.
pub uninterp spec fn regex_match(pattern: Seq<char>, s: Seq<char>) -> Option<bool>;

/// Whether a complete line stamp with ASCII digits stands at `i`: `[`, one to
/// three digits, `:`, one or two digits, then perhaps a `.` or `:` with one to
/// three digits behind it, then `]`.
pub open spec fn line_stamp_at(s: Seq<char>, i: int) -> bool {
    let a = lyrics_format::digit_run(s, i + 1) as int;
    let colon = i + 1 + a;
    let b = lyrics_format::digit_run(s, colon + 1) as int;
    let end = colon + 1 + b;
    let c = lyrics_format::digit_run(s, end + 1) as int;
    &&& lyrics_format::has_at(s, i, '[')
    &&& 1 <= a <= 3
    &&& lyrics_format::has_at(s, colon, ':')
    &&& 1 <= b <= 2
    &&& {
        ||| lyrics_format::has_at(s, end, ']')
        ||| (lyrics_format::has_at(s, end, '.') || lyrics_format::has_at(s, end, ':')) && 1 <= c <= 3
            && lyrics_format::has_at(s, end + 1 + c, ']')
    }
}

/// Whether a complete line stamp with ASCII digits stands anywhere.
pub open spec fn has_line_stamp(s: Seq<char>) -> bool {
    exists|i: int| #[trigger] line_stamp_at(s, i)
}

/// `regex::Regex::new` and `is_match`: whether the expression matches somewhere
/// in the text. The expression for a line stamp is one, it matches wherever a
/// stamp with ASCII digits stands, and in a text of ASCII characters nowhere
/// else.
#[verifier::external_body]
fn regex_is_match(pattern: &str, s: &str) -> (r: Option<bool>)
    ensures
        r == regex_match(pattern@, s@),
        pattern@ == LINE_STAMP@ ==> r is Some,
        pattern@ == LINE_STAMP@ && has_line_stamp(s@) ==> r == Some(true),
        pattern@ == LINE_STAMP@ && vstd::utf8::is_ascii_chars(s@) && !has_line_stamp(s@) ==> r
            == Some(false),
{
    regex::Regex::new(pattern).ok().map(|re| re.is_match(s))
}

/// Whether a text holds a complete line stamp.
pub fn lrc_has_line_stamp(content: &str) -> (r: bool)
    ensures
        r == (regex_match(LINE_STAMP@, content@) == Some(true)),
        has_line_stamp(content@) ==> r,
        vstd::utf8::is_ascii_chars(content@) ==> r == has_line_stamp(content@),
{
    match regex_is_match(LINE_STAMP, content) {
        Some(found) => found,
        None => false,
    }
}

/// The opening of an XML element.
#[derive(PartialEq, Eq, Debug)]
pub struct XmlElement {
    /// The name as it is written.
    pub name: String,
    /// What is written behind the name.
    pub attributes: String,
}

/// What an XML reader meets, up to the end or the first fault.
#[derive(PartialEq, Eq, Debug)]
pub enum XmlEvent {
    Start(XmlElement),
    Empty(XmlElement),
    End,
    Other,
    Eof,
    Malformed,
}

/// The opening of an XML element, as texts.
pub struct ElementNote {
    pub name: Seq<char>,
    pub attributes: Seq<char>,
}

/// What an XML reader meets, as texts.
pub enum XmlNote {
    Start(ElementNote),
    Empty(ElementNote),
    End,
    Other,
    Eof,
    Malformed,
}

impl XmlElement {
    pub open spec fn view(&self) -> ElementNote {
        ElementNote { name: self.name@, attributes: self.attributes@ }
    }
}

impl XmlEvent {
    pub open spec fn view(&self) -> XmlNote {
        match self {
            XmlEvent::Start(e) => XmlNote::Start(e@),
            XmlEvent::Empty(e) => XmlNote::Empty(e@),
            XmlEvent::End => XmlNote::End,
            XmlEvent::Other => XmlNote::Other,
            XmlEvent::Eof => XmlNote::Eof,
            XmlEvent::Malformed => XmlNote::Malformed,
        }
    }
}

/// What a list of events holds.
pub open spec fn notes(v: Seq<XmlEvent>) -> Seq<XmlNote> {
    v.map_values(|e: XmlEvent| e@)
}

/// What a list of attributes holds.
pub open spec fn attribute_texts(v: Seq<(String, String)>) -> Seq<(Seq<char>, Seq<char>)> {
    v.map_values(|a: (String, String)| (a.0@, a.1@))
}

/// What an optional list of attributes holds.
pub open spec fn opt_attributes(o: Option<Vec<(String, String)>>) -> Option<
    Seq<(Seq<char>, Seq<char>)>,
> {
    match o {
        Some(v) => Some(attribute_texts(v@)),
        None => None,
    }
}

/// What `quick_xml`'s reader meets in a document, up to the end or the first
/// fault.
pub uninterp spec fn xml_notes(document: Seq<char>) -> Seq<XmlNote>;

/// The names and the raw values of the attributes that stand behind an
/// element's name, as `quick_xml` reads them; nothing when one of them is
/// malformed or comes twice.
pub uninterp spec fn xml_attributes(raw: Seq<char>) -> Option<Seq<(Seq<char>, Seq<char>)>>;

/// `quick_xml::Reader::read_event`, over and over, up to the end or the first
/// fault: the events of the document, each as the library's own.
#[verifier::external_body]
fn xml_events(document: &str) -> (v: Vec<XmlEvent>)
    ensures
        notes(v@) == xml_notes(document@),
{
    let element = |e: BytesStart| XmlElement { name: e.name().0.to_owned(), attributes: e.attributes_raw().to_owned() };
    let mut reader = quick_xml::Reader::from_str(document);
    let mut v: Vec<XmlEvent> = Vec::new();
    while !matches!(v.last(), Some(XmlEvent::Eof | XmlEvent::Malformed)) {
        v.push(match reader.read_event() {
            Ok(Event::Start(e)) => XmlEvent::Start(element(e)),
            Ok(Event::Empty(e)) => XmlEvent::Empty(element(e)),
            Ok(Event::End(_)) => XmlEvent::End,
            Ok(Event::Eof) => XmlEvent::Eof,
            Ok(_) => XmlEvent::Other,
            Err(_) => XmlEvent::Malformed,
        });
    }
    v
}

/// `quick_xml`'s `Attributes`, walked to the end: the attributes that stand
/// behind an element's name, unless one of them is malformed.
#[verifier::external_body]
fn read_attributes(raw: &str) -> (r: Option<Vec<(String, String)>>)
    ensures
        opt_attributes(r) == xml_attributes(raw@),
{
    let pair = |a: Attribute| (a.key.0.to_owned(), a.value.into_owned());
    Attributes::new(raw, 0).map(|a| a.map(pair)).collect::<Result<_, _>>().ok()
}

/// A name without its prefix: what follows its first colon.
pub open spec fn local_name(name: Seq<char>) -> Seq<char> {
    let k = text::first_index(name, ':');
    if k < name.len() {
        name.skip(k + 1)
    } else {
        name
    }
}

fn local(name: &str) -> (r: String)
    ensures
        r@ == local_name(name@),
{
    let c = chars_of(name);
    assert(c@.skip(0) =~= c@);
    let k: usize = index_from(&c, ':', 0);
    if k < c.len() {
        let r = string_of(&c, k + 1, c.len());
        assert(r@ =~= name@.skip(k + 1));
        r
    } else {
        name.to_owned()
    }
}

/// Whether an attribute says when its element begins, in a way that the
/// renderer can read.
pub open spec fn is_begin_attribute(a: (Seq<char>, Seq<char>)) -> bool {
    local_name(a.0) == "begin"@ && ttml_time::is_begin(a.1)
}

/// Whether one of the attributes says when the element begins.
pub open spec fn has_begin(all: Seq<(Seq<char>, Seq<char>)>) -> bool {
    exists|i: int| 0 <= i < all.len() && is_begin_attribute(#[trigger] all[i])
}

/// Whether an element with these attributes is a line with a beginning; nothing
/// when an attribute is malformed, on a line or not.
pub open spec fn timed_element(
    name: Seq<char>,
    attributes: Option<Seq<(Seq<char>, Seq<char>)>>,
) -> Option<bool> {
    match attributes {
        Some(all) => Some(local_name(name) == "p"@ && has_begin(all)),
        None => None,
    }
}

/// Whether an element is a line with a beginning, unless an attribute is
/// malformed.
pub open spec fn timed_line(e: ElementNote) -> Option<bool> {
    timed_element(e.name, xml_attributes(e.attributes))
}

/// Whether the rest of a document, `depth` elements deep, leaves it well formed
/// with a timed line in it, `timed` telling of what went before.
pub open spec fn follows(rest: Seq<XmlNote>, depth: nat, timed: bool) -> bool
    decreases rest.len(),
{
    if rest.len() == 0 {
        false
    } else {
        match rest[0] {
            XmlNote::Start(e) => match timed_line(e) {
                Some(t) => follows(rest.drop_first(), depth + 1, timed || t),
                None => false,
            },
            XmlNote::Empty(e) => match timed_line(e) {
                Some(t) => follows(rest.drop_first(), depth, timed || t),
                None => false,
            },
            XmlNote::End => depth > 0 && follows(rest.drop_first(), (depth - 1) as nat, timed),
            XmlNote::Other => follows(rest.drop_first(), depth, timed),
            XmlNote::Eof => timed && depth == 0,
            XmlNote::Malformed => false,
        }
    }
}

/// Whether an element with these attributes is a timed line, unless an
/// attribute is malformed.
pub fn is_timed_element(name: &str, attributes: &Option<Vec<(String, String)>>) -> (r: Option<bool>)
    ensures
        r == timed_element(name@, opt_attributes(*attributes)),
{
    let is_line = same_text(local(name).as_str(), "p");
    match attributes {
        Some(list) => {
            let ghost all = attribute_texts(list@);
            assert(all.len() == list@.len());
            let mut timed = false;
            let mut i: usize = 0;
            while i < list.len()
                invariant
                    i <= list@.len(),
                    all == attribute_texts(list@),
                    is_line == (local_name(name@) == "p"@),
                    timed == (is_line && exists|j: int|
                        0 <= j < i && is_begin_attribute(#[trigger] all[j])),
                decreases list@.len() - i,
            {
                assert(all[i as int] == (list@[i as int].0@, list@[i as int].1@));
                if is_line && same_text(local(list[i].0.as_str()).as_str(), "begin")
                    && begins_in_time(list[i].1.as_str()) {
                    timed = true;
                }
                i = i + 1;
            }
            assert(timed == (is_line && has_begin(all)));
            Some(timed)
        },
        None => None,
    }
}

/// Whether an element is a timed line, unless an attribute is malformed.
pub fn is_timed_line(e: &XmlElement) -> (r: Option<bool>)
    ensures
        r == timed_line(e@),
{
    is_timed_element(e.name.as_str(), &read_attributes(e.attributes.as_str()))
}

/// Whether a document, by its events, is well formed with a timed line in it.
pub fn has_timed_line(events: &Vec<XmlEvent>) -> (r: bool)
    ensures
        r == follows(notes(events@), 0, false),
{
    let ghost all = notes(events@);
    let mut depth: usize = 0;
    let mut timed = false;
    let mut i: usize = 0;
    assert(all.skip(0) =~= all);
    while i < events.len()
        invariant
            i <= events@.len(),
            depth <= i,
            all == notes(events@),
            follows(all, 0, false) == follows(all.skip(i as int), depth as nat, timed),
        decreases events@.len() - i,
    {
        assert(all.skip(i as int)[0] == events@[i as int]@);
        assert(all.skip(i as int).drop_first() =~= all.skip(i + 1));
        match &events[i] {
            XmlEvent::Start(e) => {
                match is_timed_line(e) {
                    Some(t) => {
                        timed = timed || t;
                    },
                    None => {
                        return false;
                    },
                }
                depth = depth + 1;
            },
            XmlEvent::Empty(e) => {
                match is_timed_line(e) {
                    Some(t) => {
                        timed = timed || t;
                    },
                    None => {
                        return false;
                    },
                }
            },
            XmlEvent::End => {
                if depth == 0 {
                    return false;
                }
                depth = depth - 1;
            },
            XmlEvent::Other => {},
            XmlEvent::Eof => {
                return timed && depth == 0;
            },
            XmlEvent::Malformed => {
                return false;
            },
        }
        i = i + 1;
    }
    false
}

/// Whether a document of timed XML is well formed with a timed line in it.
pub fn ttml_has_timed_line(content: &str) -> (r: bool)
    ensures
        r == follows(xml_notes(content@), 0, false),
{
    has_timed_line(&xml_events(content))
}

/// Whether lyrics of a format can be followed.
pub open spec fn synced(format: LyricsFormat, content: Seq<char>) -> bool {
    match format {
        LyricsFormat::Lrc | LyricsFormat::EnhancedLrc => regex_match(LINE_STAMP@, content) == Some(
            true,
        ),
        LyricsFormat::Plain => false,
        LyricsFormat::Ttml => follows(xml_notes(content), 0, false),
    }
}

/// Whether lyrics of a format can be followed.
pub fn lyrics_are_synced(format: &LyricsFormat, content: &str) -> (r: bool)
    ensures
        r == synced(*format, content@),
        (*format == LyricsFormat::Lrc || *format == LyricsFormat::EnhancedLrc)
            && has_line_stamp(content@) ==> r,
        (*format == LyricsFormat::Lrc || *format == LyricsFormat::EnhancedLrc)
            && vstd::utf8::is_ascii_chars(content@) && !has_line_stamp(content@) ==> !r,
        *format == LyricsFormat::Plain ==> !r,
{
    match format {
        LyricsFormat::Lrc | LyricsFormat::EnhancedLrc => lrc_has_line_stamp(content),
        LyricsFormat::Plain => false,
        LyricsFormat::Ttml => ttml_has_timed_line(content),
    }
}

/// Whether an event opens a timed line.
pub open spec fn opens_timed_line(n: XmlNote) -> bool {
    match n {
        XmlNote::Start(e) => timed_line(e) == Some(true),
        XmlNote::Empty(e) => timed_line(e) == Some(true),
        _ => false,
    }
}

/// Timed XML that can be followed has a timed line in it: XML whose lines carry
/// no timing, or only on their words, cannot be followed.
pub proof fn followed_xml_has_a_timed_line(document: Seq<XmlNote>)
    requires
        follows(document, 0, false),
    ensures
        exists|i: int| 0 <= i < document.len() && opens_timed_line(#[trigger] document[i]),
{
    lemma_timed_line_within(document, 0);
}

proof fn lemma_timed_line_within(rest: Seq<XmlNote>, depth: nat)
    requires
        follows(rest, depth, false),
    ensures
        exists|i: int| 0 <= i < rest.len() && opens_timed_line(#[trigger] rest[i]),
    decreases rest.len(),
{
    if !opens_timed_line(rest[0]) {
        let tail = rest.drop_first();
        match rest[0] {
            XmlNote::Start(_) => lemma_timed_line_within(tail, depth + 1),
            XmlNote::Empty(_) => lemma_timed_line_within(tail, depth),
            XmlNote::End => lemma_timed_line_within(tail, (depth - 1) as nat),
            XmlNote::Other => lemma_timed_line_within(tail, depth),
            XmlNote::Eof => {},
            XmlNote::Malformed => {},
        }
        let i = choose|i: int| 0 <= i < tail.len() && opens_timed_line(#[trigger] tail[i]);
        assert(rest[i + 1] == tail[i]);
    }
}

proof fn lemma_digits(s: Seq<char>, from: int, n: int)
    requires
        0 <= from,
        0 <= n,
        from + n < s.len(),
        forall|k: int| from <= k < from + n ==> text::is_digit(#[trigger] s[k]),
        !text::is_digit(s[from + n]),
    ensures
        lyrics_format::digit_run(s, from) == n,
    decreases n,
{
    if n > 0 {
        assert(text::is_digit(s[from]));
        lemma_digits(s, from + 1, n - 1);
    }
}

/// A complete stamp is seen wherever it stands: one to three digits of minutes, one or two
/// of seconds, and behind a point or a colon one to three of a fraction, or none.
pub proof fn a_line_stamp_is_seen_anywhere(
    a: Seq<char>,
    minutes: Seq<char>,
    seconds: Seq<char>,
    point: char,
    fraction: Seq<char>,
    b: Seq<char>,
)
    requires
        lyrics_format::is_number(minutes) && minutes.len() <= 3,
        lyrics_format::is_number(seconds) && seconds.len() <= 2,
        lyrics_format::is_number(fraction) && fraction.len() <= 3,
        point == '.' || point == ':',
    ensures
        has_line_stamp(a + seq!['['] + minutes + seq![':'] + seconds + seq![']'] + b),
        has_line_stamp(
            a + seq!['['] + minutes + seq![':'] + seconds + seq![point] + fraction + seq![']'] + b,
        ),
{
    let at = a.len() as int;
    let (m, n, f) = (minutes.len() as int, seconds.len() as int, fraction.len() as int);
    let s = a + seq!['['] + minutes + seq![':'] + seconds + seq![']'] + b;
    assert forall|k: int| at + 1 <= k < at + 1 + m implies text::is_digit(#[trigger] s[k]) by {
        assert(s[k] == minutes[k - at - 1]);
    }
    lemma_digits(s, at + 1, m);
    assert forall|k: int| at + 2 + m <= k < at + 2 + m + n implies text::is_digit(
        #[trigger] s[k],
    ) by {
        assert(s[k] == seconds[k - at - 2 - m]);
    }
    lemma_digits(s, at + 2 + m, n);
    assert(line_stamp_at(s, at));
    let t = a + seq!['['] + minutes + seq![':'] + seconds + seq![point] + fraction + seq![']'] + b;
    assert forall|k: int| at + 1 <= k < at + 1 + m implies text::is_digit(#[trigger] t[k]) by {
        assert(t[k] == minutes[k - at - 1]);
    }
    lemma_digits(t, at + 1, m);
    assert forall|k: int| at + 2 + m <= k < at + 2 + m + n implies text::is_digit(
        #[trigger] t[k],
    ) by {
        assert(t[k] == seconds[k - at - 2 - m]);
    }
    lemma_digits(t, at + 2 + m, n);
    assert forall|k: int| at + 3 + m + n <= k < at + 3 + m + n + f implies text::is_digit(
        #[trigger] t[k],
    ) by {
        assert(t[k] == fraction[k - at - 3 - m - n]);
    }
    lemma_digits(t, at + 3 + m + n, f);
    assert(line_stamp_at(t, at));
}

/// Without an opening bracket that a digit follows, or without a closing bracket, there is
/// no line stamp.
pub proof fn no_line_stamp_without_brackets(s: Seq<char>)
    requires
        (forall|i: int| 0 <= i < s.len() - 1 ==> !(#[trigger] s[i] == '[' && '0' <= s[i + 1] <= '9'))
            || (forall|i: int| 0 <= i < s.len() ==> #[trigger] s[i] != ']'),
    ensures
        !has_line_stamp(s),
{
    if has_line_stamp(s) {
        let i = choose|i: int| #[trigger] line_stamp_at(s, i);
        assert(s[i] == '[');
        assert(lyrics_format::digit_run(s, i + 1) > 0);
        assert(text::is_digit(s[i + 1]));
    }
}

/// Plain lyrics cannot be followed. Lyrics with stamps can exactly where the expression for
/// a line stamp matches in them, whether their words are stamped too or not, and timed XML
/// exactly where its events leave it well formed with a timed line.
pub proof fn what_can_be_followed(content: Seq<char>)
    ensures
        !synced(LyricsFormat::Plain, content),
        synced(LyricsFormat::Lrc, content) <==> regex_match(
            r"\[(\d{1,3}):(\d{1,2})(?:[.:](\d{1,3}))?\]"@,
            content,
        ) == Some(true),
        synced(LyricsFormat::EnhancedLrc, content) == synced(LyricsFormat::Lrc, content),
        synced(LyricsFormat::Ttml, content) <==> follows(xml_notes(content), 0, false),
{
}

/// An element is a timed line exactly where it is a `p`, whatever its prefix, and one of its
/// attributes is a `begin`, whatever its prefix, that says a time. A malformed attribute
/// leaves it undecided.
pub proof fn a_timed_line_is_a_p_that_begins(
    name: Seq<char>,
    all: Seq<(Seq<char>, Seq<char>)>,
    prefix: Seq<char>,
)
    requires
        forall|i: int| 0 <= i < prefix.len() ==> #[trigger] prefix[i] != ':',
    ensures
        timed_element(name, None) is None,
        timed_element("p"@, Some(all)) == Some(has_begin(all)),
        timed_element(prefix.push(':') + "p"@, Some(all)) == Some(has_begin(all)),
        timed_element(name, Some(all)) == Some(true) ==> exists|i: int|
            0 <= i < all.len() && local_name((#[trigger] all[i]).0) == "begin"@ && ttml_time::is_begin(
                all[i].1,
            ),
        forall|i: int|
            0 <= i < all.len() && (#[trigger] all[i]).0 == "begin"@ && ttml_time::is_begin(all[i].1)
                ==> has_begin(all),
{
    reveal_strlit("p");
    reveal_strlit("begin");
    text::lemma_first_index("p"@, ':', 1);
    let full = prefix.push(':') + "p"@;
    assert forall|j: int| 0 <= j < prefix.len() implies full[j] != ':' by {
        assert(full[j] == prefix[j]);
    }
    text::lemma_first_index(full, ':', prefix.len() as int);
    assert(full.skip(prefix.len() as int + 1) =~= "p"@);
    assert forall|j: int| 0 <= j < "begin"@.len() implies "begin"@[j] != ':' by {}
    text::lemma_first_index("begin"@, ':', 5);
    assert forall|i: int|
        0 <= i < all.len() && (#[trigger] all[i]).0 == "begin"@ && ttml_time::is_begin(
            all[i].1,
        ) implies has_begin(all) by {
        assert(is_begin_attribute(all[i]));
    }
}

/// A document whose elements all close, with a timed line opened on the way, can be
/// followed; a fault, an element that is not closed or one closed too often spoils it.
pub proof fn a_document_must_end_well(rest: Seq<XmlNote>, depth: nat, timed: bool)
    requires
        rest.len() > 0,
    ensures
        rest[0] is Malformed ==> !follows(rest, depth, timed),
        rest[0] is Eof ==> (follows(rest, depth, timed) <==> timed && depth == 0),
        rest[0] is End && depth == 0 ==> !follows(rest, depth, timed),
        rest[0] is End && depth > 0 ==> follows(rest, depth, timed) == follows(
            rest.drop_first(),
            (depth - 1) as nat,
            timed,
        ),
        rest[0] is Other ==> follows(rest, depth, timed) == follows(
            rest.drop_first(),
            depth,
            timed,
        ),
        rest[0] matches XmlNote::Start(e) ==> (timed_line(e) is None ==> !follows(
            rest,
            depth,
            timed,
        )) && (timed_line(e) matches Some(t) ==> follows(rest, depth, timed) == follows(
            rest.drop_first(),
            depth + 1,
            timed || t,
        )),
        rest[0] matches XmlNote::Empty(e) ==> (timed_line(e) is None ==> !follows(
            rest,
            depth,
            timed,
        )) && (timed_line(e) matches Some(t) ==> follows(rest, depth, timed) == follows(
            rest.drop_first(),
            depth,
            timed || t,
        )),
{
}

/// The events and the attributes of a document are taken as they are, in order.
pub proof fn events_are_taken_as_they_are(v: Seq<XmlEvent>, a: Vec<(String, String)>)
    ensures
        notes(v).len() == v.len(),
        forall|i: int| 0 <= i < v.len() ==> #[trigger] notes(v)[i] == v[i]@,
        opt_attributes(None) is None,
        opt_attributes(Some(a)) is Some,
        opt_attributes(Some(a))->0.len() == a@.len(),
        forall|i: int|
            0 <= i < a@.len() ==> #[trigger] opt_attributes(Some(a))->0[i] == (a@[i].0@, a@[i].1@),
{
}

/// An element is told by its name and by what is written behind it, and an event by its
/// kind.
pub proof fn an_element_is_told_by_its_name(e: XmlElement)
    ensures
        e@.name == e.name@,
        e@.attributes == e.attributes@,
        XmlEvent::Start(e)@ == XmlNote::Start(e@),
        XmlEvent::Empty(e)@ == XmlNote::Empty(e@),
        XmlEvent::End@ is End,
        XmlEvent::Other@ is Other,
        XmlEvent::Eof@ is Eof,
        XmlEvent::Malformed@ is Malformed,
{
}

/// More than three digits of minutes, or more than two of seconds, are no line stamp.
pub proof fn too_many_digits_are_no_line_stamp(minutes: Seq<char>, seconds: Seq<char>, rest: Seq<char>)
    requires
        forall|i: int| 0 <= i < minutes.len() ==> '0' <= #[trigger] minutes[i] <= '9',
        forall|i: int| 0 <= i < seconds.len() ==> '0' <= #[trigger] seconds[i] <= '9',
        minutes.len() > 3 || seconds.len() > 2,
        rest.len() > 0 && !('0' <= rest[0] <= '9'),
        forall|i: int| 0 <= i < rest.len() ==> #[trigger] rest[i] != '[',
    ensures
        !has_line_stamp(seq!['['] + minutes + seq![':'] + seconds + rest),
{
    let (m, n) = (minutes.len() as int, seconds.len() as int);
    let s = seq!['['] + minutes + seq![':'] + seconds + rest;
    if has_line_stamp(s) {
        let i = choose|i: int| #[trigger] line_stamp_at(s, i);
        assert(0 <= i < s.len() && s[i] == '[');
        if 1 <= i < 1 + m {
            assert(s[i] == minutes[i - 1]);
        } else if 2 + m <= i < 2 + m + n {
            assert(s[i] == seconds[i - 2 - m]);
        } else if 2 + m + n <= i {
            assert(s[i] == rest[i - 2 - m - n]);
        }
        assert(i == 0);
        assert forall|k: int| 1 <= k < 1 + m implies text::is_digit(#[trigger] s[k]) by {
            assert(s[k] == minutes[k - 1]);
        }
        assert(s[1 + m] == ':');
        lemma_digits(s, 1, m);
        assert forall|k: int| 2 + m <= k < 2 + m + n implies text::is_digit(#[trigger] s[k]) by {
            assert(s[k] == seconds[k - 2 - m]);
        }
        assert(s[2 + m + n] == rest[0]);
        lemma_digits(s, 2 + m, n);
        assert(false);
    }
}

} // verus!
