//! The formats that lyrics come in: their names, and how a document is
//! recognised.

use vstd::prelude::*;

use crate::text;
use crate::text::{begins_with, blank, chars_of, has_infix, index_from, lines, same_text, string_of};

verus! {

/// `Plain` is text without timing, `Lrc` has a stamp per line, `EnhancedLrc` a
/// stamp per word too, and `Ttml` is timed XML.
#[derive(Clone, Copy, PartialEq, Eq, Debug, Structural)]
pub enum LyricsFormat {
    Plain,
    Lrc,
    EnhancedLrc,
    Ttml,
}

/// Where lyrics came from.
#[derive(Clone, Copy, PartialEq, Eq, Debug, Structural)]
pub enum LyricsSource {
    Embedded,
    LrcFile,
    Api,
    Manual,
}

/// The formats that a network provider answers in.
#[derive(Clone, Copy, PartialEq, Eq, Debug, Structural)]
pub enum ExternalLyricsFormat {
    Plain,
    Lrc,
    EnhancedLrc,
}

/// The formats that a plugin answers in.
#[derive(Clone, Copy, PartialEq, Eq, Debug, Structural)]
pub enum PluginLyricsFormat {
    Plain,
    Lrc,
    EnhancedLrc,
    Ttml,
}

/// How many lines are looked at to recognise a format.
pub const SNIFFED_LINES: usize = 40;

/// How many characters are looked at to recognise XML.
pub const SNIFFED_CHARS: usize = 512;

/// The name under which a format is stored.
pub open spec fn format_name(f: LyricsFormat) -> Seq<char> {
    match f {
        LyricsFormat::Plain => "plain"@,
        LyricsFormat::Lrc => "lrc"@,
        LyricsFormat::EnhancedLrc => "enhanced_lrc"@,
        LyricsFormat::Ttml => "ttml"@,
    }
}

/// The format of a stored name; a name that is none of them is plain.
pub open spec fn format_named(s: Seq<char>) -> LyricsFormat {
    if s == "lrc"@ {
        LyricsFormat::Lrc
    } else if s == "enhanced_lrc"@ {
        LyricsFormat::EnhancedLrc
    } else if s == "ttml"@ {
        LyricsFormat::Ttml
    } else {
        LyricsFormat::Plain
    }
}

/// The name under which a source is stored.
pub open spec fn source_name(s: LyricsSource) -> Seq<char> {
    match s {
        LyricsSource::Embedded => "embedded"@,
        LyricsSource::LrcFile => "lrc_file"@,
        LyricsSource::Api => "api"@,
        LyricsSource::Manual => "manual"@,
    }
}

/// The source of a stored name; a name that is none of them is an embedded tag.
pub open spec fn source_named(s: Seq<char>) -> LyricsSource {
    if s == "lrc_file"@ {
        LyricsSource::LrcFile
    } else if s == "api"@ {
        LyricsSource::Api
    } else if s == "manual"@ {
        LyricsSource::Manual
    } else {
        LyricsSource::Embedded
    }
}

/// Read a stored format.
pub fn parse_format(s: &str) -> (r: LyricsFormat)
    ensures
        r == format_named(s@),
{
    if same_text(s, "lrc") {
        LyricsFormat::Lrc
    } else if same_text(s, "enhanced_lrc") {
        LyricsFormat::EnhancedLrc
    } else if same_text(s, "ttml") {
        LyricsFormat::Ttml
    } else {
        LyricsFormat::Plain
    }
}

/// Read a stored source.
pub fn parse_source(s: &str) -> (r: LyricsSource)
    ensures
        r == source_named(s@),
{
    if same_text(s, "lrc_file") {
        LyricsSource::LrcFile
    } else if same_text(s, "api") {
        LyricsSource::Api
    } else if same_text(s, "manual") {
        LyricsSource::Manual
    } else {
        LyricsSource::Embedded
    }
}

/// Store a format.
pub fn format_to_db(fmt: &LyricsFormat) -> (r: &'static str)
    ensures
        r@ == format_name(*fmt),
{
    match fmt {
        LyricsFormat::Plain => "plain",
        LyricsFormat::Lrc => "lrc",
        LyricsFormat::EnhancedLrc => "enhanced_lrc",
        LyricsFormat::Ttml => "ttml",
    }
}

/// Store a source.
pub fn source_to_db(src: &LyricsSource) -> (r: &'static str)
    ensures
        r@ == source_name(*src),
{
    match src {
        LyricsSource::Embedded => "embedded",
        LyricsSource::LrcFile => "lrc_file",
        LyricsSource::Api => "api",
        LyricsSource::Manual => "manual",
    }
}

/// A stored format is read back as it was.
pub proof fn a_stored_format_reads_back(f: LyricsFormat)
    ensures
        format_named(format_name(f)) == f,
{
    reveal_strlit("plain");
    reveal_strlit("lrc");
    reveal_strlit("enhanced_lrc");
    reveal_strlit("ttml");
    assert("plain"@.len() == 5 && "lrc"@.len() == 3 && "enhanced_lrc"@.len() == 12 && "ttml"@.len()
        == 4);
}

/// A stored source is read back as it was.
pub proof fn a_stored_source_reads_back(s: LyricsSource)
    ensures
        source_named(source_name(s)) == s,
{
    reveal_strlit("embedded");
    reveal_strlit("lrc_file");
    reveal_strlit("api");
    reveal_strlit("manual");
    assert("embedded"@[0] == 'e' && "lrc_file"@[0] == 'l' && "api"@[0] == 'a' && "manual"@[0]
        == 'm');
}

/// A provider's format as the application's.
pub open spec fn external_as_app(format: ExternalLyricsFormat) -> LyricsFormat {
    match format {
        ExternalLyricsFormat::Plain => LyricsFormat::Plain,
        ExternalLyricsFormat::Lrc => LyricsFormat::Lrc,
        ExternalLyricsFormat::EnhancedLrc => LyricsFormat::EnhancedLrc,
    }
}

/// A provider's format as the application's.
pub fn external_format_to_app(format: ExternalLyricsFormat) -> (r: LyricsFormat)
    ensures
        r == external_as_app(format),
{
    match format {
        ExternalLyricsFormat::Plain => LyricsFormat::Plain,
        ExternalLyricsFormat::Lrc => LyricsFormat::Lrc,
        ExternalLyricsFormat::EnhancedLrc => LyricsFormat::EnhancedLrc,
    }
}

/// A plugin's format as the application's.
pub open spec fn plugin_format(f: PluginLyricsFormat) -> LyricsFormat {
    match f {
        PluginLyricsFormat::Plain => LyricsFormat::Plain,
        PluginLyricsFormat::Lrc => LyricsFormat::Lrc,
        PluginLyricsFormat::EnhancedLrc => LyricsFormat::EnhancedLrc,
        PluginLyricsFormat::Ttml => LyricsFormat::Ttml,
    }
}

/// A plugin's format as the application's.
pub fn plugin_format_to_app(f: PluginLyricsFormat) -> (r: LyricsFormat)
    ensures
        r == plugin_format(f),
{
    match f {
        PluginLyricsFormat::Plain => LyricsFormat::Plain,
        PluginLyricsFormat::Lrc => LyricsFormat::Lrc,
        PluginLyricsFormat::EnhancedLrc => LyricsFormat::EnhancedLrc,
        PluginLyricsFormat::Ttml => LyricsFormat::Ttml,
    }
}

/// How many digits stand in a row at `from`.
pub open spec fn digit_run(s: Seq<char>, from: int) -> nat
    decreases s.len() - from,
{
    if 0 <= from < s.len() && text::is_digit(s[from]) {
        1 + digit_run(s, from + 1)
    } else {
        0
    }
}

/// Whether `s` has the character `c` at `i`.
pub open spec fn has_at(s: Seq<char>, i: int, c: char) -> bool {
    0 <= i < s.len() && s[i] == c
}

/// Whether a word stamp stands at `i`: `<`, digits, `:`, digits, then perhaps a
/// `.` or `:` with digits behind it, then `>`.
pub open spec fn word_stamp_at(s: Seq<char>, i: int) -> bool {
    let a = digit_run(s, i + 1) as int;
    let colon = i + 1 + a;
    let b = digit_run(s, colon + 1) as int;
    let end = colon + 1 + b;
    &&& has_at(s, i, '<')
    &&& a > 0
    &&& has_at(s, colon, ':')
    &&& b > 0
    &&& if has_at(s, end, '.') || has_at(s, end, ':') {
        digit_run(s, end + 1) > 0 && has_at(s, end + 1 + digit_run(s, end + 1), '>')
    } else {
        has_at(s, end, '>')
    }
}

/// Whether a word stamp stands anywhere.
pub open spec fn has_word_stamp(s: Seq<char>) -> bool {
    exists|i: int| #[trigger] word_stamp_at(s, i)
}

/// How many digits stand in a row at `start`: none where it lies beyond the end.
pub fn scan_digits(s: &Vec<char>, start: usize) -> (n: usize)
    ensures
        n == digit_run(s@, start as int),
        start < s@.len() ==> start + n <= s@.len(),
        start >= s@.len() ==> n == 0,
        forall|k: int| start <= k < start + n ==> text::is_digit(#[trigger] s@[k]),
        start + n < s@.len() ==> !text::is_digit(s@[start + n]),
{
    let total: usize = s.len();
    if start >= total {
        return 0;
    }
    let mut n: usize = 0;
    while start + n < total && '0' <= s[start + n] && s[start + n] <= '9'
        invariant
            start + n <= s@.len(),
            start < s@.len(),
            total == s@.len(),
            forall|k: int| start <= k < start + n ==> text::is_digit(#[trigger] s@[k]),
            digit_run(s@, start as int) == n + digit_run(s@, start + n),
        decreases s@.len() - start - n,
    {
        n = n + 1;
    }
    n
}

fn char_is(s: &Vec<char>, i: usize, c: char) -> (r: bool)
    ensures
        r == has_at(s@, i as int, c),
{
    i < s.len() && s[i] == c
}

fn stamp_at(s: &Vec<char>, i: usize) -> (r: bool)
    requires
        i < s@.len(),
    ensures
        r == word_stamp_at(s@, i as int),
{
    let total: usize = s.len();
    if s[i] != '<' {
        return false;
    }
    let a: usize = scan_digits(s, i + 1);
    let colon: usize = i + 1 + a;
    if a == 0 || !char_is(s, colon, ':') {
        return false;
    }
    let b: usize = scan_digits(s, colon + 1);
    let end: usize = colon + 1 + b;
    if b == 0 {
        return false;
    }
    if char_is(s, end, '.') || char_is(s, end, ':') {
        let c: usize = scan_digits(s, end + 1);
        c > 0 && char_is(s, end + 1 + c, '>')
    } else {
        char_is(s, end, '>')
    }
}

/// Whether a text holds a word stamp.
pub fn word_stamp_present(s: &str) -> (r: bool)
    ensures
        r == has_word_stamp(s@),
{
    let v = chars_of(s);
    let mut i: usize = 0;
    while i < v.len()
        invariant
            v@ == s@,
            i <= v@.len(),
            forall|k: int| 0 <= k < i ==> !(#[trigger] word_stamp_at(s@, k)),
        decreases v@.len() - i,
    {
        if stamp_at(&v, i) {
            return true;
        }
        i = i + 1;
    }
    assert forall|k: int| !(#[trigger] word_stamp_at(s@, k)) by {
        assert(!has_at(s@, k, '<') || 0 <= k < s@.len());
    }
    false
}

/// Text that begins with an opening bracket, two digits, a colon and a digit.
pub open spec fn begins_with_a_time(l: Seq<char>) -> bool {
    &&& l.len() >= 5
    &&& l[0] == '['
    &&& text::is_digit(l[1])
    &&& text::is_digit(l[2])
    &&& l[3] == ':'
    &&& text::is_digit(l[4])
}

/// A line that begins with `[`, two digits, a colon and a digit, and is at least seven
/// bytes long.
pub open spec fn line_is_stamped(line: Seq<char>) -> bool {
    let l = text::trimmed_start(line);
    begins_with_a_time(l) && vstd::utf8::encode_utf8(l).len() >= 7
}

/// What follows the first closing bracket of a line, if there is one.
pub open spec fn after_bracket(line: Seq<char>) -> Option<Seq<char>> {
    let l = text::trimmed_start(line);
    let k = text::first_index(l, ']');
    if k < l.len() {
        Some(l.skip(k + 1))
    } else {
        None
    }
}

/// A stamped line with a word stamp behind its first closing bracket.
pub open spec fn line_is_word_stamped(line: Seq<char>) -> bool {
    line_is_stamped(line) && (after_bracket(line) matches Some(body) && has_word_stamp(body))
}

/// Whether the beginning of a document, in lower case, is that of timed XML.
pub open spec fn looks_like_ttml(head: Seq<char>) -> bool {
    ||| "<?xml"@.is_prefix_of(head)
    ||| "<tt "@.is_prefix_of(head)
    ||| "<tt>"@.is_prefix_of(head)
    ||| text::has_part(head, "xmlns=\"http://www.w3.org/ns/ttml\""@)
    ||| text::has_part(head, "<timedtext"@)
}

/// The first `n` of a sequence, or all of it.
pub open spec fn first_of<T>(s: Seq<T>, n: nat) -> Seq<T> {
    if s.len() <= n {
        s
    } else {
        s.take(n as int)
    }
}

/// The format that a document looks like. Timed XML goes first, then a word
/// stamp among the first lines, then a line stamp among them.
pub open spec fn sniffed(content: Seq<char>) -> LyricsFormat {
    let head = text::ascii_lowercase(
        first_of(text::trimmed_start(content), SNIFFED_CHARS as nat),
    );
    let lines = first_of(text::lines_of(content), SNIFFED_LINES as nat);
    if looks_like_ttml(head) {
        LyricsFormat::Ttml
    } else if exists|k: int| 0 <= k < lines.len() && line_is_word_stamped(#[trigger] lines[k]) {
        LyricsFormat::EnhancedLrc
    } else if exists|k: int| 0 <= k < lines.len() && line_is_stamped(#[trigger] lines[k]) {
        LyricsFormat::Lrc
    } else {
        LyricsFormat::Plain
    }
}

fn stamped(line: &str) -> (r: bool)
    ensures
        r == line_is_stamped(line@),
{
    let l = line.trim_start();
    let v = chars_of(l);
    let long = l.as_bytes().len() >= 7;
    if v.len() < 5 {
        return false;
    }
    v[0] == '[' && '0' <= v[1] && v[1] <= '9' && '0' <= v[2] && v[2] <= '9' && v[3] == ':' && '0'
        <= v[4] && v[4] <= '9' && long
}

fn word_stamped(line: &str) -> (r: bool)
    requires
        line_is_stamped(line@),
    ensures
        r == line_is_word_stamped(line@),
{
    let v = chars_of(line.trim_start());
    let ghost l = text::trimmed_start(line@);
    assert(v@.skip(0) =~= v@);
    let k: usize = index_from(&v, ']', 0);
    if k < v.len() {
        let body = string_of(&v, k + 1, v.len());
        assert(body@ =~= l.skip(k + 1));
        word_stamp_present(body.as_str())
    } else {
        false
    }
}

/// Recognise the format of a document.
pub fn detect_format(content: &str) -> (r: LyricsFormat)
    ensures
        r == sniffed(content@),
{
    let head = chars_of(content.trim_start());
    let n: usize = if head.len() < SNIFFED_CHARS {
        head.len()
    } else {
        SNIFFED_CHARS
    };
    let prefix = string_of(&head, 0, n);
    assert(prefix@ =~= first_of(text::trimmed_start(content@), SNIFFED_CHARS as nat));
    let lower = chars_of(prefix.as_str().to_ascii_lowercase().as_str());
    if begins_with(&lower, "<?xml") || begins_with(&lower, "<tt ") || begins_with(&lower, "<tt>")
        || has_infix(&lower, "xmlns=\"http://www.w3.org/ns/ttml\"") || has_infix(
        &lower,
        "<timedtext",
    ) {
        return LyricsFormat::Ttml;
    }
    let all = lines(content);
    let ghost first = first_of(text::lines_of(content@), SNIFFED_LINES as nat);
    assert(text::texts(all@).len() == all@.len());
    let m: usize = if all.len() < SNIFFED_LINES {
        all.len()
    } else {
        SNIFFED_LINES
    };
    let mut has_line_stamp = false;
    let mut i: usize = 0;
    while i < m
        invariant
            first == first_of(text::lines_of(content@), SNIFFED_LINES as nat),
            text::texts(all@) == text::lines_of(content@),
            m <= all@.len(),
            m == first.len(),
            i <= m,
            !looks_like_ttml(
                text::ascii_lowercase(
                    first_of(text::trimmed_start(content@), SNIFFED_CHARS as nat),
                ),
            ),
            forall|k: int| 0 <= k < i ==> !line_is_word_stamped(#[trigger] first[k]),
            has_line_stamp == (exists|k: int|
                0 <= k < i && line_is_stamped(#[trigger] first[k])),
        decreases m - i,
    {
        let line = &all[i];
        assert(text::texts(all@)[i as int] == line@);
        assert(first[i as int] == line@);
        if stamped(line.as_str()) {
            has_line_stamp = true;
            if word_stamped(line.as_str()) {
                assert(line_is_word_stamped(first[i as int]));
                return LyricsFormat::EnhancedLrc;
            }
        }
        i = i + 1;
    }
    if has_line_stamp {
        LyricsFormat::Lrc
    } else {
        LyricsFormat::Plain
    }
}

/// A document that is not blank and looks like the format it was declared as.
pub open spec fn is_what_it_claims(content: Seq<char>, declared: LyricsFormat) -> bool {
    !text::is_blank(content) && sniffed(content) == declared
}

/// Whether a document is not blank and looks like the format it was declared as.
pub fn document_is_what_it_claims(content: &str, declared: LyricsFormat) -> (r: bool)
    ensures
        r == is_what_it_claims(content@, declared),
{
    !blank(content) && detect_format(content) == declared
}

/// Brackets without a time stamp stay plain: where no line has two digits, a colon
/// and a digit behind an opening bracket, and no timed XML is recognised, a document
/// is plain.
pub proof fn brackets_alone_stay_plain(content: Seq<char>)
    requires
        forall|k: int|
            0 <= k < text::lines_of(content).len() ==> !begins_with_a_time(
                text::trimmed_start(#[trigger] text::lines_of(content)[k]),
            ),
        sniffed(content) != LyricsFormat::Ttml,
    ensures
        sniffed(content) == LyricsFormat::Plain,
{
    let all = text::lines_of(content);
    let lines = first_of(all, SNIFFED_LINES as nat);
    assert forall|k: int| 0 <= k < lines.len() implies !line_is_stamped(#[trigger] lines[k]) by {
        assert(lines[k] == all[k]);
    }
}

/// No document passes under two formats.
pub proof fn a_document_passes_under_one_format_at_most(
    content: Seq<char>,
    a: LyricsFormat,
    b: LyricsFormat,
)
    requires
        is_what_it_claims(content, a),
        is_what_it_claims(content, b),
    ensures
        a == b,
{
}

/// A word-stamped line is a stamped line: what is recognised as enhanced would
/// without its word stamps still be recognised as timed.
pub proof fn a_word_stamp_alone_times_nothing(line: Seq<char>)
    ensures
        line_is_word_stamped(line) ==> line_is_stamped(line),
{
}

/// A document with a stamped line among its first forty is timed, whatever stands before
/// that line: unless it is timed XML it has stamps on its lines, or on its words too.
pub proof fn a_stamp_among_forty_lines_is_seen(content: Seq<char>, k: int)
    requires
        0 <= k < 40,
        k < text::lines_of(content).len(),
        ({
            let l = text::trimmed_start(text::lines_of(content)[k]);
            &&& l.len() >= 5
            &&& l[0] == '[' && l[3] == ':'
            &&& '0' <= l[1] <= '9' && '0' <= l[2] <= '9' && '0' <= l[4] <= '9'
            &&& vstd::utf8::encode_utf8(l).len() >= 7
        }),
    ensures
        sniffed(content) != LyricsFormat::Plain,
        sniffed(content) != LyricsFormat::Ttml ==> (sniffed(content) == LyricsFormat::EnhancedLrc
            <==> exists|j: int|
            0 <= j < 40 && j < text::lines_of(content).len() && line_is_word_stamped(
                #[trigger] text::lines_of(content)[j],
            )),
{
    let all = text::lines_of(content);
    let lines = first_of(all, SNIFFED_LINES as nat);
    assert(line_is_stamped(lines[k]));
    if exists|j: int| 0 <= j < 40 && j < all.len() && line_is_word_stamped(#[trigger] all[j]) {
        let j = choose|j: int|
            0 <= j < 40 && j < all.len() && line_is_word_stamped(#[trigger] all[j]);
        assert(lines[j] == all[j]);
    }
    if exists|j: int| 0 <= j < lines.len() && line_is_word_stamped(#[trigger] lines[j]) {
        let j = choose|j: int| 0 <= j < lines.len() && line_is_word_stamped(#[trigger] lines[j]);
        assert(lines[j] == all[j]);
    }
}

/// Where none of the first forty lines is stamped a document is plain, unless it is timed
/// XML.
pub proof fn no_stamp_among_forty_lines_is_plain(content: Seq<char>)
    requires
        forall|k: int|
            0 <= k < 40 && k < text::lines_of(content).len() ==> {
                let l = text::trimmed_start(#[trigger] text::lines_of(content)[k]);
                !(l.len() >= 5 && l[0] == '[' && l[3] == ':' && '0' <= l[1] <= '9' && '0' <= l[2]
                    <= '9' && '0' <= l[4] <= '9' && vstd::utf8::encode_utf8(l).len() >= 7)
            },
        sniffed(content) != LyricsFormat::Ttml,
    ensures
        sniffed(content) == LyricsFormat::Plain,
{
    let all = text::lines_of(content);
    let lines = first_of(all, SNIFFED_LINES as nat);
    assert forall|k: int| 0 <= k < lines.len() implies !line_is_stamped(#[trigger] lines[k]) by {
        assert(lines[k] == all[k]);
    }
}

/// A document is timed XML exactly where it begins, white space and case aside, as XML or
/// as a `tt` element, or where one of the two marks of timed text stands among its first
/// five hundred and twelve characters.
pub proof fn timed_xml_is_known_by_its_beginning(content: Seq<char>)
    ensures
        ({
            let s = text::trimmed_start(content);
            let head = text::ascii_lowercase(
                if s.len() <= 512 {
                    s
                } else {
                    s.take(512)
                },
            );
            sniffed(content) == LyricsFormat::Ttml <==> "<?xml"@.is_prefix_of(head)
                || "<tt "@.is_prefix_of(head) || "<tt>"@.is_prefix_of(head) || text::has_part(
                head,
                "xmlns=\"http://www.w3.org/ns/ttml\""@,
            ) || text::has_part(head, "<timedtext"@)
        }),
{
}

proof fn lemma_digit_run(s: Seq<char>, from: int, n: int)
    requires
        0 <= from,
        0 <= n,
        from + n <= s.len(),
        forall|k: int| from <= k < from + n ==> text::is_digit(#[trigger] s[k]),
        from + n < s.len() ==> !text::is_digit(s[from + n]),
    ensures
        digit_run(s, from) == n,
    decreases n,
{
    if n > 0 {
        assert(text::is_digit(s[from]));
        lemma_digit_run(s, from + 1, n - 1);
    }
}

/// Digits alone, and at least one.
pub open spec fn is_number(s: Seq<char>) -> bool {
    s.len() > 0 && forall|i: int| 0 <= i < s.len() ==> '0' <= #[trigger] s[i] <= '9'
}

/// A stamp in angle brackets is a word stamp wherever it stands: minutes and seconds, with
/// a fraction behind a point or a colon or without one.
pub proof fn a_word_stamp_is_seen_anywhere(
    a: Seq<char>,
    minutes: Seq<char>,
    seconds: Seq<char>,
    point: char,
    fraction: Seq<char>,
    b: Seq<char>,
)
    requires
        is_number(minutes),
        is_number(seconds),
        is_number(fraction),
        point == '.' || point == ':',
    ensures
        has_word_stamp(a + seq!['<'] + minutes + seq![':'] + seconds + seq!['>'] + b),
        has_word_stamp(
            a + seq!['<'] + minutes + seq![':'] + seconds + seq![point] + fraction + seq!['>'] + b,
        ),
{
    let at = a.len() as int;
    let (m, n, f) = (minutes.len() as int, seconds.len() as int, fraction.len() as int);
    let s = a + seq!['<'] + minutes + seq![':'] + seconds + seq!['>'] + b;
    assert forall|k: int| at + 1 <= k < at + 1 + m implies text::is_digit(#[trigger] s[k]) by {
        assert(s[k] == minutes[k - at - 1]);
    }
    lemma_digit_run(s, at + 1, m);
    assert forall|k: int| at + 2 + m <= k < at + 2 + m + n implies text::is_digit(
        #[trigger] s[k],
    ) by {
        assert(s[k] == seconds[k - at - 2 - m]);
    }
    lemma_digit_run(s, at + 2 + m, n);
    assert(word_stamp_at(s, at));
    let t = a + seq!['<'] + minutes + seq![':'] + seconds + seq![point] + fraction + seq!['>'] + b;
    assert forall|k: int| at + 1 <= k < at + 1 + m implies text::is_digit(#[trigger] t[k]) by {
        assert(t[k] == minutes[k - at - 1]);
    }
    lemma_digit_run(t, at + 1, m);
    assert forall|k: int| at + 2 + m <= k < at + 2 + m + n implies text::is_digit(
        #[trigger] t[k],
    ) by {
        assert(t[k] == seconds[k - at - 2 - m]);
    }
    lemma_digit_run(t, at + 2 + m, n);
    assert forall|k: int| at + 3 + m + n <= k < at + 3 + m + n + f implies text::is_digit(
        #[trigger] t[k],
    ) by {
        assert(t[k] == fraction[k - at - 3 - m - n]);
    }
    lemma_digit_run(t, at + 3 + m + n, f);
    assert(word_stamp_at(t, at));
}

/// Without an opening angle bracket with a digit behind it, or without a closing one,
/// there is no word stamp.
pub proof fn no_word_stamp_without_brackets(s: Seq<char>)
    requires
        (forall|i: int| 0 <= i < s.len() - 1 ==> !(#[trigger] s[i] == '<' && '0' <= s[i + 1] <= '9'))
            || (forall|i: int| 0 <= i < s.len() ==> #[trigger] s[i] != '>'),
    ensures
        !has_word_stamp(s),
{
    if has_word_stamp(s) {
        let i = choose|i: int| #[trigger] word_stamp_at(s, i);
        assert(s[i] == '<');
        assert(digit_run(s, i + 1) > 0);
        assert(text::is_digit(s[i + 1]));
    }
}

/// The words of a stamped line count from its first closing bracket on: such a line is
/// word-stamped exactly where a word stamp stands behind that bracket.
pub proof fn words_are_stamped_behind_the_bracket(line: Seq<char>, stamp: Seq<char>, body: Seq<char>)
    requires
        text::trimmed_start(line) == stamp + seq![']'] + body,
        forall|i: int| 0 <= i < stamp.len() ==> #[trigger] stamp[i] != ']',
        line_is_stamped(line),
    ensures
        line_is_word_stamped(line) == has_word_stamp(body),
{
    let l = text::trimmed_start(line);
    assert forall|j: int| 0 <= j < stamp.len() implies l[j] != ']' by {
        assert(l[j] == stamp[j]);
    }
    text::lemma_first_index(l, ']', stamp.len() as int);
    assert(l.skip(stamp.len() as int + 1) =~= body);
}

/// The formats of a provider and of a plugin are the application's of the same name.
pub proof fn formats_keep_their_names()
    ensures
        external_as_app(ExternalLyricsFormat::Plain) == LyricsFormat::Plain,
        external_as_app(ExternalLyricsFormat::Lrc) == LyricsFormat::Lrc,
        external_as_app(ExternalLyricsFormat::EnhancedLrc) == LyricsFormat::EnhancedLrc,
        plugin_format(PluginLyricsFormat::Plain) == LyricsFormat::Plain,
        plugin_format(PluginLyricsFormat::Lrc) == LyricsFormat::Lrc,
        plugin_format(PluginLyricsFormat::EnhancedLrc) == LyricsFormat::EnhancedLrc,
        plugin_format(PluginLyricsFormat::Ttml) == LyricsFormat::Ttml,
        format_name(LyricsFormat::Plain) == "plain"@,
        format_name(LyricsFormat::Lrc) == "lrc"@,
        format_name(LyricsFormat::EnhancedLrc) == "enhanced_lrc"@,
        format_name(LyricsFormat::Ttml) == "ttml"@,
        source_name(LyricsSource::Embedded) == "embedded"@,
        source_name(LyricsSource::LrcFile) == "lrc_file"@,
        source_name(LyricsSource::Api) == "api"@,
        source_name(LyricsSource::Manual) == "manual"@,
{
}

/// A stored name that is none of the formats' is plain, and one that is none of the
/// sources' is an embedded tag.
pub proof fn unknown_names_have_a_default(s: Seq<char>)
    ensures
        s != "lrc"@ && s != "enhanced_lrc"@ && s != "ttml"@ ==> format_named(s)
            == LyricsFormat::Plain,
        s != "lrc_file"@ && s != "api"@ && s != "manual"@ ==> source_named(s)
            == LyricsSource::Embedded,
{
}

/// A document is what it is declared to be exactly where it is not blank and is recognised
/// as that.
pub proof fn a_claim_is_held_to_the_document(content: Seq<char>, declared: LyricsFormat)
    ensures
        is_what_it_claims(content, declared) <==> (exists|i: int|
            0 <= i < content.len() && !text::is_white_space(#[trigger] content[i])) && sniffed(content)
            == declared,
{
}

/// No word of a line is stamped where no bracket closes the stamp of the line.
pub proof fn no_word_is_stamped_without_a_closing_bracket(line: Seq<char>)
    requires
        forall|i: int| 0 <= i < line.len() ==> #[trigger] line[i] != ']',
    ensures
        !line_is_word_stamped(line),
{
    let l = text::trimmed_start(line);
    lemma_trimmed_start_suffix(line);
    let n = line.len() - l.len();
    assert forall|j: int| 0 <= j < l.len() implies l[j] != ']' by {
        assert(l[j] == line[n + j]);
    }
    text::lemma_first_index(l, ']', l.len() as int);
}

proof fn lemma_trimmed_start_suffix(s: Seq<char>)
    ensures
        text::trimmed_start(s).len() <= s.len(),
        text::trimmed_start(s) == s.skip(s.len() - text::trimmed_start(s).len()),
    decreases s.len(),
{
    if s.len() > 0 && text::is_white_space(s[0]) {
        let rest = s.drop_first();
        lemma_trimmed_start_suffix(rest);
        let t = text::trimmed_start(s);
        assert(rest.skip(rest.len() - t.len()) =~= s.skip(s.len() - t.len()));
    } else {
        assert(s.skip(0) =~= s);
    }
}

} // verus!
