//! Playlists as text, to be exchanged with other players.
//!
//! A list is written as a header, the list's name and for each track a line
//! that describes it and a line with its path. On the way in, what is not a
//! comment is a path, and paths are matched against the library.

use vstd::prelude::*;
use vstd::string::StringExecFns;

use crate::decimal;
use crate::decimal::i64_text;
use crate::text;
use crate::text::{blank, chars_of, lines, same_text, string_of, utf8_text};

verus! {

/// How many of the paths that matched nothing the interface is told.
pub const MISSING_SHOWN: usize = 20;

/// A track of a list to be written.
#[derive(PartialEq, Eq, Debug)]
pub struct ExportRow {
    pub title: String,
    pub artist_name: Option<String>,
    pub duration_ms: i64,
    pub file_path: String,
}

/// A text on one line: each line break becomes a space.
pub open spec fn one_line(s: Seq<char>) -> Seq<char> {
    s.map_values(
        |c: char|
            if c == '\r' || c == '\n' {
                ' '
            } else {
                c
            },
    )
}

/// The whole seconds of a length, none below zero.
pub open spec fn whole_seconds(ms: int) -> int {
    if ms < 0 {
        0
    } else {
        ms / 1000
    }
}

/// What a track is described as: its artist and its title, or its title alone.
pub open spec fn description(row: ExportRow) -> Seq<char> {
    match row.artist_name {
        Some(a) if !text::is_blank(a@) => text::trimmed(a@) + " - "@ + row.title@,
        _ => row.title@,
    }
}

/// The line that describes a track.
pub open spec fn info_line(row: ExportRow) -> Seq<char> {
    "#EXTINF:"@ + decimal::int_text(whole_seconds(row.duration_ms as int)) + ","@ + one_line(
        description(row),
    )
}

/// A track's lines.
pub open spec fn row_text(row: ExportRow) -> Seq<char> {
    info_line(row) + "\n"@ + row.file_path@ + "\n"@
}

/// The lines of some tracks.
pub open spec fn rows_text(rows: Seq<ExportRow>) -> Seq<char>
    decreases rows.len(),
{
    if rows.len() == 0 {
        seq![]
    } else {
        rows_text(rows.drop_last()) + row_text(rows.last())
    }
}

/// A list as text.
pub open spec fn m3u_text(name: Seq<char>, rows: Seq<ExportRow>) -> Seq<char> {
    "#EXTM3U\n"@ + ("#PLAYLIST:"@ + one_line(name) + "\n"@) + rows_text(rows)
}

/// A text on one line.
fn flat(s: &str) -> (r: String)
    ensures
        r@ == one_line(s@),
{
    let c = chars_of(s);
    let mut r = String::new();
    let total: usize = c.len();
    let mut i: usize = 0;
    while i < total
        invariant
            total == c@.len(),
            c@ == s@,
            i <= total,
            r@ == one_line(s@.take(i as int)),
        decreases total - i,
    {
        let x = c[i];
        if x == '\r' || x == '\n' {
            r.push(' ');
        } else {
            r.push(x);
        }
        assert(r@ =~= one_line(s@.take(i + 1)));
        i = i + 1;
    }
    assert(s@.take(total as int) =~= s@);
    r
}

fn write_row(out: &mut String, row: &ExportRow)
    ensures
        final(out)@ == old(out)@ + row_text(*row),
{
    let ghost before = out@;
    let seconds: i64 = if row.duration_ms < 0 {
        0
    } else {
        row.duration_ms / 1000
    };
    let mut display = String::new();
    let mut named = false;
    if let Some(a) = &row.artist_name {
        if !blank(a.as_str()) {
            display.append(a.as_str().trim());
            display.append(" - ");
            named = true;
        }
    }
    display.append(row.title.as_str());
    proof {
        if named {
            assert(display@ =~= description(*row));
        } else {
            assert(display@ =~= row.title@);
        }
    }
    out.append("#EXTINF:");
    out.append(i64_text(seconds).as_str());
    out.append(",");
    out.append(flat(display.as_str()).as_str());
    out.append("\n");
    out.append(row.file_path.as_str());
    out.append("\n");
    assert(out@ =~= before + row_text(*row));
}

/// A list as text.
pub fn export_playlist_m3u(name: &str, rows: &Vec<ExportRow>) -> (r: String)
    ensures
        r@ == m3u_text(name@, rows@),
{
    let mut out = "#EXTM3U\n".to_owned();
    let mut title = "#PLAYLIST:".to_owned();
    title.append(flat(name).as_str());
    title.append("\n");
    out.append(title.as_str());
    let ghost header = out@;
    let total: usize = rows.len();
    let mut i: usize = 0;
    assert(header + rows_text(rows@.take(0)) =~= header);
    while i < total
        invariant
            total == rows@.len(),
            i <= total,
            out@ == header + rows_text(rows@.take(i as int)),
        decreases total - i,
    {
        assert(rows@.take(i + 1).drop_last() =~= rows@.take(i as int));
        write_row(&mut out, &rows[i]);
        assert(out@ =~= header + rows_text(rows@.take(i + 1)));
        i = i + 1;
    }
    assert(rows@.take(total as int) =~= rows@);
    out
}

// Reading a list.

/// The text that some bytes stand for: what they encode, and one character for
/// each byte where they encode nothing.
pub open spec fn decoded(bytes: Seq<u8>) -> Seq<char> {
    if vstd::utf8::valid_utf8(bytes) {
        vstd::utf8::decode_utf8(bytes)
    } else {
        bytes.map_values(|b: u8| b as char)
    }
}

/// The text that some bytes stand for.
pub fn decode(bytes: &Vec<u8>) -> (r: String)
    ensures
        r@ == decoded(bytes@),
{
    if let Ok(s) = utf8_text(bytes) {
        return s;
    }
    let mut r = String::new();
    let total: usize = bytes.len();
    let mut i: usize = 0;
    while i < total
        invariant
            total == bytes@.len(),
            i <= total,
            r@ == bytes@.take(i as int).map_values(|b: u8| b as char),
        decreases total - i,
    {
        r.push(bytes[i] as char);
        assert(r@ =~= bytes@.take(i + 1).map_values(|b: u8| b as char));
        i = i + 1;
    }
    assert(bytes@.take(total as int) =~= bytes@);
    r
}

/// A line without the byte order marks at its beginning.
pub open spec fn without_marks(line: Seq<char>) -> Seq<char>
    decreases line.len(),
{
    if line.len() > 0 && line[0] == '\u{feff}' {
        without_marks(line.drop_first())
    } else {
        line
    }
}

/// The path that a line names: none where it is blank or a comment.
pub open spec fn entry_of(line: Seq<char>) -> Option<Seq<char>> {
    let t = text::trimmed(without_marks(line));
    if t.len() == 0 || t[0] == '#' {
        None
    } else {
        Some(t)
    }
}

/// The paths that some lines name.
pub open spec fn entries_of(ls: Seq<Seq<char>>) -> Seq<Seq<char>>
    decreases ls.len(),
{
    if ls.len() == 0 {
        seq![]
    } else {
        let earlier = entries_of(ls.drop_last());
        match entry_of(ls.last()) {
            Some(path) => earlier.push(path),
            None => earlier,
        }
    }
}

/// The paths that a list names.
pub open spec fn paths_of(list: Seq<char>) -> Seq<Seq<char>> {
    entries_of(text::lines_of(list))
}

fn entry(line: &str) -> (r: Option<String>)
    ensures
        text::opt_text(r) == entry_of(line@),
{
    let c = chars_of(line);
    let mut from: usize = 0;
    assert(line@.skip(0) =~= line@);
    while from < c.len() && c[from] == '\u{feff}'
        invariant
            c@ == line@,
            from <= c@.len(),
            without_marks(line@.skip(from as int)) == without_marks(line@),
        decreases c@.len() - from,
    {
        assert(line@.skip(from as int).drop_first() =~= line@.skip(from + 1));
        from = from + 1;
    }
    let rest = string_of(&c, from, c.len());
    assert(rest@ =~= line@.skip(from as int));
    let t = chars_of(rest.as_str().trim());
    if t.len() == 0 || t[0] == '#' {
        None
    } else {
        Some(string_of(&t, 0, t.len()))
    }
}

/// The paths that a list names, in order.
pub fn playlist_entries(list: &str) -> (v: Vec<String>)
    ensures
        text::texts(v@) == paths_of(list@),
{
    let ls = lines(list);
    let ghost all = text::texts(ls@);
    let mut v: Vec<String> = Vec::new();
    let total: usize = ls.len();
    let mut i: usize = 0;
    assert(text::texts(v@) =~= entries_of(all.take(0)));
    while i < total
        invariant
            total == ls@.len(),
            all == text::texts(ls@),
            i <= total,
            text::texts(v@) == entries_of(all.take(i as int)),
        decreases total - i,
    {
        assert(all.take(i + 1).drop_last() =~= all.take(i as int));
        assert(all.take(i + 1).last() == ls@[i as int]@);
        if let Some(path) = entry(ls[i].as_str()) {
            let ghost earlier = v@;
            v.push(path);
            assert(text::texts(v@) =~= text::texts(earlier).push(path@));
        }
        i = i + 1;
    }
    assert(all.take(total as int) =~= all);
    v
}

proof fn lemma_entries_concat(a: Seq<Seq<char>>, b: Seq<Seq<char>>)
    ensures
        entries_of(a + b) == entries_of(a) + entries_of(b),
    decreases b.len(),
{
    if b.len() == 0 {
        assert(a + b =~= a);
        assert(entries_of(a) + entries_of(b) =~= entries_of(a));
    } else {
        lemma_entries_concat(a, b.drop_last());
        assert((a + b).drop_last() =~= a + b.drop_last());
        assert((a + b).last() == b.last());
        match entry_of(b.last()) {
            Some(path) => {
                assert((entries_of(a) + entries_of(b.drop_last())).push(path) =~= entries_of(a)
                    + entries_of(b.drop_last()).push(path));
            },
            None => {},
        }
    }
}

proof fn lemma_comment(line: Seq<char>)
    requires
        line.len() > 0,
        line[0] == '#',
    ensures
        entry_of(line) is None,
{
    assert(without_marks(line) == line);
    assert(text::trimmed_start(line) == line);
    text::lemma_trimmed_end_keeps_head(line);
}

/// Whether a path can stand in a list: on one line, and read as it is written.
pub open spec fn fits_a_list(path: Seq<char>) -> bool {
    &&& forall|i: int| 0 <= i < path.len() ==> #[trigger] path[i] != '\n'
    &&& path.len() > 0
    &&& !text::is_white_space(path[0]) && !text::is_white_space(path.last())
    &&& path[0] != '#' && path[0] != '\u{feff}'
}

proof fn lemma_int_text_one_line(n: int)
    ensures
        forall|i: int|
            0 <= i < decimal::int_text(n).len() ==> #[trigger] decimal::int_text(n)[i] != '\n',
{
    if n < 0 {
        decimal::lemma_nat_text_digits((-n) as nat);
    } else {
        decimal::lemma_nat_text_digits(n as nat);
    }
    assert forall|i: int| 0 <= i < decimal::int_text(n).len() implies #[trigger] decimal::int_text(
        n,
    )[i] != '\n' by {
        if n < 0 && i > 0 {
            assert(decimal::int_text(n)[i] == decimal::nat_text((-n) as nat)[i - 1]);
        }
    }
}

proof fn lemma_row_entries(row: ExportRow)
    requires
        fits_a_list(row.file_path@),
    ensures
        paths_of(row_text(row)) == seq![row.file_path@],
        row_text(row).last() == '\n',
{
    let info = info_line(row);
    let path = row.file_path@;
    reveal_strlit("\n");
    reveal_strlit("#EXTINF:");
    reveal_strlit(",");
    lemma_int_text_one_line(whole_seconds(row.duration_ms as int));
    let number = decimal::int_text(whole_seconds(row.duration_ms as int));
    let about = one_line(description(row));
    assert forall|i: int| 0 <= i < info.len() implies #[trigger] info[i] != '\n' by {
        if i < 8 {
        } else if i < 8 + number.len() {
            assert(info[i] == number[i - 8]);
        } else if i == 8 + number.len() {
        } else {
            assert(info[i] == about[i - 9 - number.len()]);
        }
    }
    assert(row_text(row) =~= info.push('\n') + path.push('\n'));
    text::lemma_one_line(info);
    text::lemma_one_line(path);
    a_line_is_a_path(seq![], seq![], path, seq![]);
    assert(Seq::<char>::empty() + Seq::<char>::empty() + path + Seq::<char>::empty() =~= path);
    text::lemma_lines_concat(info.push('\n'), path.push('\n'));
    let a = text::without_cr(info);
    assert(a.len() > 0 && a[0] == '#');
    lemma_comment(a);
    assert(text::without_cr(path) == path);
    let ls = seq![a] + seq![path];
    assert(ls.drop_last() =~= seq![a]);
    assert(seq![a].drop_last() =~= seq![]);
    assert(entries_of(seq![a].drop_last()) =~= seq![]);
    assert(entries_of(seq![a]) =~= seq![]);
    assert(entries_of(ls) =~= seq![path]);
}

proof fn lemma_rows_entries(rows: Seq<ExportRow>)
    requires
        forall|i: int| 0 <= i < rows.len() ==> fits_a_list((#[trigger] rows[i]).file_path@),
    ensures
        paths_of(rows_text(rows)) == rows.map_values(|r: ExportRow| r.file_path@),
        rows.len() > 0 ==> rows_text(rows).last() == '\n',
        rows.len() == 0 ==> rows_text(rows).len() == 0,
    decreases rows.len(),
{
    let told = rows.map_values(|r: ExportRow| r.file_path@);
    if rows.len() == 0 {
        assert(text::lines_of(rows_text(rows)) =~= seq![]);
        assert(told =~= seq![]);
    } else {
        let rest = rows.drop_last();
        assert forall|i: int| 0 <= i < rest.len() implies fits_a_list(
            (#[trigger] rest[i]).file_path@,
        ) by {
            assert(rest[i] == rows[i]);
        }
        lemma_rows_entries(rest);
        lemma_row_entries(rows.last());
        text::lemma_lines_concat(rows_text(rest), row_text(rows.last()));
        lemma_entries_concat(
            text::lines_of(rows_text(rest)),
            text::lines_of(row_text(rows.last())),
        );
        assert(told =~= rest.map_values(|r: ExportRow| r.file_path@) + seq![
            rows.last().file_path@,
        ]);
    }
}

/// A written list names, when it is read, the paths of its tracks in their
/// order, and nothing else.
pub proof fn an_exported_list_reads_back(name: Seq<char>, rows: Seq<ExportRow>)
    requires
        forall|i: int| 0 <= i < rows.len() ==> fits_a_list((#[trigger] rows[i]).file_path@),
    ensures
        paths_of(m3u_text(name, rows)) == rows.map_values(|r: ExportRow| r.file_path@),
{
    reveal_strlit("#EXTM3U\n");
    reveal_strlit("#PLAYLIST:");
    reveal_strlit("\n");
    let first = seq!['#', 'E', 'X', 'T', 'M', '3', 'U'];
    let second = "#PLAYLIST:"@ + one_line(name);
    let head = "#EXTM3U\n"@;
    let title = second + "\n"@;
    assert(head =~= first.push('\n'));
    assert(title =~= second.push('\n'));
    assert forall|i: int| 0 <= i < second.len() implies #[trigger] second[i] != '\n' by {
        if i >= 10 {
            assert(second[i] == one_line(name)[i - 10]);
        }
    }
    text::lemma_one_line(first);
    text::lemma_one_line(second);
    text::lemma_lines_concat(head, title);
    let a = text::without_cr(first);
    let b = text::without_cr(second);
    assert(a.len() > 0 && a[0] == '#');
    assert(b.len() > 0 && b[0] == '#');
    lemma_comment(a);
    lemma_comment(b);
    let ls = seq![a] + seq![b];
    assert(ls.drop_last() =~= seq![a]);
    assert(seq![a].drop_last() =~= seq![]);
    assert(entries_of(seq![a].drop_last()) =~= seq![]);
    assert(entries_of(seq![a]) =~= seq![]);
    assert(entries_of(ls) =~= seq![]);
    lemma_rows_entries(rows);
    text::lemma_lines_concat(head + title, rows_text(rows));
    lemma_entries_concat(ls, text::lines_of(rows_text(rows)));
    assert(entries_of(ls) + paths_of(rows_text(rows)) =~= paths_of(rows_text(rows)));
    assert(m3u_text(name, rows) =~= (head + title) + rows_text(rows));
}

// Matching paths against the library.

/// Whether a text begins as a path of Windows that is taken literally.
pub open spec fn is_verbatim(s: Seq<char>) -> bool {
    s.len() >= 4 && s[0] == '\\' && s[1] == '\\' && s[2] == '?' && s[3] == '\\'
}

/// Whether such a path names a share.
pub open spec fn is_verbatim_share(s: Seq<char>) -> bool {
    &&& is_verbatim(s)
    &&& s.len() >= 8
    &&& s[4] == 'U' || s[4] == 'u'
    &&& s[5] == 'N' || s[5] == 'n'
    &&& s[6] == 'C' || s[6] == 'c'
    &&& s[7] == '\\'
}

/// What a path is known by: itself, and on Windows without the prefix of a path
/// that is taken literally and in lower case.
pub open spec fn path_key(path: Seq<char>, windows: bool) -> Seq<char> {
    if !windows {
        path
    } else if is_verbatim_share(path) {
        text::unicode_lowercase("\\\\"@ + path.skip(8))
    } else if is_verbatim(path) {
        text::unicode_lowercase(path.skip(4))
    } else {
        text::unicode_lowercase(path)
    }
}

/// What a resolved path is known by.
pub fn canonical_path_key(path: &str, windows: bool) -> (r: String)
    ensures
        r@ == path_key(path@, windows),
{
    if !windows {
        return path.to_owned();
    }
    let c = chars_of(path);
    let n: usize = c.len();
    let verbatim = n >= 4 && c[0] == '\\' && c[1] == '\\' && c[2] == '?' && c[3] == '\\';
    if verbatim && n >= 8 && (c[4] == 'U' || c[4] == 'u') && (c[5] == 'N' || c[5] == 'n') && (c[6]
        == 'C' || c[6] == 'c') && c[7] == '\\' {
        let mut s = "\\\\".to_owned();
        let rest = string_of(&c, 8, n);
        assert(rest@ =~= path@.skip(8));
        s.append(rest.as_str());
        s.as_str().to_lowercase()
    } else if verbatim {
        let rest = string_of(&c, 4, n);
        assert(rest@ =~= path@.skip(4));
        rest.as_str().to_lowercase()
    } else {
        path.to_lowercase()
    }
}

/// A path by what it is matched on.
#[derive(PartialEq, Eq, Debug)]
pub struct PathKeys {
    /// What the resolved path is known by.
    pub key: String,
    /// The file's name, where it is text.
    pub base: Option<String>,
}

/// A track of the library by what it is matched on.
#[derive(PartialEq, Eq, Debug)]
pub struct LibraryPath {
    pub id: i64,
    pub keys: PathKeys,
}

/// A path of a list.
#[derive(PartialEq, Eq, Debug)]
pub struct Candidate {
    /// The path in words.
    pub path: String,
    pub keys: PathKeys,
}

/// Whether two files have the same name, whatever the case.
pub open spec fn same_base(a: PathKeys, b: PathKeys) -> bool {
    match (a.base, b.base) {
        (Some(x), Some(y)) => text::unicode_lowercase(x@) == text::unicode_lowercase(y@),
        _ => false,
    }
}

/// The last track of the library with a candidate's path.
pub open spec fn same_path_track(library: Seq<LibraryPath>, keys: PathKeys) -> Option<i64>
    decreases library.len(),
{
    if library.len() == 0 {
        None
    } else if library.last().keys.key@ == keys.key@ {
        Some(library.last().id)
    } else {
        same_path_track(library.drop_last(), keys)
    }
}

/// The last track of the library whose file has a candidate's name.
pub open spec fn same_name_track(library: Seq<LibraryPath>, keys: PathKeys) -> Option<i64>
    decreases library.len(),
{
    if library.len() == 0 {
        None
    } else if same_base(library.last().keys, keys) {
        Some(library.last().id)
    } else {
        same_name_track(library.drop_last(), keys)
    }
}

/// The track that a candidate stands for: the one with its path, and where there
/// is none one whose file has its name.
pub open spec fn matching_track(library: Seq<LibraryPath>, keys: PathKeys) -> Option<i64> {
    match same_path_track(library, keys) {
        Some(id) => Some(id),
        None => same_name_track(library, keys),
    }
}

/// The tracks that some candidates stand for.
pub open spec fn matched(library: Seq<LibraryPath>, candidates: Seq<Candidate>) -> Seq<i64>
    decreases candidates.len(),
{
    if candidates.len() == 0 {
        seq![]
    } else {
        let earlier = matched(library, candidates.drop_last());
        match matching_track(library, candidates.last().keys) {
            Some(id) => earlier.push(id),
            None => earlier,
        }
    }
}

/// The candidates that stand for no track, in words.
pub open spec fn unmatched(library: Seq<LibraryPath>, candidates: Seq<Candidate>) -> Seq<Seq<char>>
    decreases candidates.len(),
{
    if candidates.len() == 0 {
        seq![]
    } else {
        let earlier = unmatched(library, candidates.drop_last());
        match matching_track(library, candidates.last().keys) {
            Some(id) => earlier,
            None => earlier.push(candidates.last().path@),
        }
    }
}

fn find_track(library: &Vec<LibraryPath>, keys: &PathKeys) -> (r: Option<i64>)
    ensures
        r == matching_track(library@, *keys),
{
    let total: usize = library.len();
    let mut i: usize = total;
    assert(library@.take(total as int) =~= library@);
    while i > 0
        invariant
            total == library@.len(),
            i <= total,
            same_path_track(library@.take(i as int), *keys) == same_path_track(library@, *keys),
        decreases i,
    {
        assert(library@.take(i as int).drop_last() =~= library@.take(i - 1));
        if same_text(library[i - 1].keys.key.as_str(), keys.key.as_str()) {
            return Some(library[i - 1].id);
        }
        i = i - 1;
    }
    assert(same_path_track(library@, *keys) is None);
    let base = match &keys.base {
        Some(b) => b.as_str().to_lowercase(),
        None => {
            proof {
                lemma_no_name(library@, *keys);
            }
            return None;
        },
    };
    i = total;
    while i > 0
        invariant
            total == library@.len(),
            i <= total,
            same_path_track(library@, *keys) is None,
            keys.base matches Some(b) && base@ == text::unicode_lowercase(b@),
            same_name_track(library@.take(i as int), *keys) == same_name_track(library@, *keys),
        decreases i,
    {
        assert(library@.take(i as int).drop_last() =~= library@.take(i - 1));
        if let Some(b) = &library[i - 1].keys.base {
            if same_text(b.as_str().to_lowercase().as_str(), base.as_str()) {
                return Some(library[i - 1].id);
            }
        }
        i = i - 1;
    }
    None
}

proof fn lemma_no_name(library: Seq<LibraryPath>, keys: PathKeys)
    requires
        keys.base is None,
    ensures
        same_name_track(library, keys) is None,
    decreases library.len(),
{
    if library.len() > 0 {
        lemma_no_name(library.drop_last(), keys);
    }
}

/// What matching a list against the library comes to.
#[derive(PartialEq, Eq, Debug)]
pub struct MatchedPaths {
    /// The tracks found, in the list's order.
    pub tracks: Vec<i64>,
    /// The paths that matched nothing, in the list's order.
    pub missing: Vec<String>,
}

/// Match a list against the library.
pub fn match_candidates(library: &Vec<LibraryPath>, candidates: &Vec<Candidate>) -> (r: MatchedPaths)
    ensures
        r.tracks@ == matched(library@, candidates@),
        text::texts(r.missing@) == unmatched(library@, candidates@),
        r.tracks@.len() + r.missing@.len() == candidates@.len(),
{
    let mut tracks: Vec<i64> = Vec::new();
    let mut missing: Vec<String> = Vec::new();
    let total: usize = candidates.len();
    let mut i: usize = 0;
    assert(tracks@ =~= matched(library@, candidates@.take(0)));
    assert(text::texts(missing@) =~= unmatched(library@, candidates@.take(0)));
    while i < total
        invariant
            total == candidates@.len(),
            i <= total,
            tracks@ == matched(library@, candidates@.take(i as int)),
            text::texts(missing@) == unmatched(library@, candidates@.take(i as int)),
            tracks@.len() + missing@.len() == i,
        decreases total - i,
    {
        assert(candidates@.take(i + 1).drop_last() =~= candidates@.take(i as int));
        let c = &candidates[i];
        match find_track(library, &c.keys) {
            Some(id) => {
                tracks.push(id);
            },
            None => {
                let ghost earlier = missing@;
                missing.push(c.path.clone());
                assert(text::texts(missing@) =~= text::texts(earlier).push(c.path@));
            },
        }
        i = i + 1;
    }
    assert(candidates@.take(total as int) =~= candidates@);
    MatchedPaths { tracks, missing }
}

/// The name of an imported list: the file's without its extension, trimmed.
pub open spec fn imported_name_of(stem: Option<Seq<char>>) -> Seq<char> {
    match stem {
        Some(s) if !text::is_blank(s) => text::trimmed(s),
        _ => "Imported playlist"@,
    }
}

/// The name of an imported list.
pub fn imported_name(stem: &Option<String>) -> (r: String)
    ensures
        r@ == imported_name_of(text::opt_text(*stem)),
{
    if let Some(s) = stem {
        if !blank(s.as_str()) {
            return s.as_str().trim().to_owned();
        }
    }
    "Imported playlist".to_owned()
}

/// What an import came to, as the interface is told it.
#[derive(PartialEq, Eq, Debug)]
pub struct ImportPlaylistResult {
    pub playlist_id: i64,
    pub imported: i64,
    pub missing: i64,
    /// The first of the paths that matched nothing.
    pub missing_paths: Vec<String>,
}

/// What an import came to, as the interface is told it.
pub fn import_playlist_m3u(playlist_id: i64, imported: u32, missing: &Vec<String>) -> (r:
    ImportPlaylistResult)
    requires
        missing@.len() <= i64::MAX,
    ensures
        r.playlist_id == playlist_id,
        r.imported == imported,
        r.missing == missing@.len(),
        text::texts(r.missing_paths@) == text::texts(missing@).take(
            if missing@.len() < MISSING_SHOWN {
                missing@.len() as int
            } else {
                MISSING_SHOWN as int
            },
        ),
        r.missing_paths@.len() == (if missing@.len() < 20 {
            missing@.len()
        } else {
            20
        }),
{
    let n: usize = if missing.len() < MISSING_SHOWN {
        missing.len()
    } else {
        MISSING_SHOWN
    };
    let mut shown: Vec<String> = Vec::new();
    let mut i: usize = 0;
    assert(text::texts(shown@) =~= text::texts(missing@).take(0));
    while i < n
        invariant
            n <= missing@.len(),
            i <= n,
            text::texts(shown@) == text::texts(missing@).take(i as int),
        decreases n - i,
    {
        let ghost earlier = shown@;
        shown.push(missing[i].clone());
        assert(text::texts(shown@) =~= text::texts(earlier).push(missing@[i as int]@));
        assert(text::texts(missing@).take(i + 1) =~= text::texts(missing@).take(i as int).push(
            missing@[i as int]@,
        ));
        i = i + 1;
    }
    ImportPlaylistResult {
        playlist_id,
        imported: imported as i64,
        missing: missing.len() as i64,
        missing_paths: shown,
    }
}

/// A track of the library whose path a list names is found by that path, and not
/// by another file of the same name.
pub proof fn a_path_outranks_a_name(library: Seq<LibraryPath>, keys: PathKeys, k: int)
    requires
        0 <= k < library.len(),
        library[k].keys.key@ == keys.key@,
    ensures
        same_path_track(library, keys) is Some,
        matching_track(library, keys) == same_path_track(library, keys),
    decreases library.len(),
{
    if library.last().keys.key@ != keys.key@ {
        assert(library.drop_last()[k] == library[k]);
        a_path_outranks_a_name(library.drop_last(), keys, k);
    }
}

// What a list is read as.

proof fn lemma_marks_go(marks: Seq<char>, s: Seq<char>)
    requires
        forall|i: int| 0 <= i < marks.len() ==> #[trigger] marks[i] == '\u{feff}',
        s.len() > 0 ==> s[0] != '\u{feff}',
    ensures
        without_marks(marks + s) == s,
    decreases marks.len(),
{
    if marks.len() == 0 {
        assert(marks + s =~= s);
    } else {
        assert(marks[0] == '\u{feff}');
        assert forall|i: int| 0 <= i < marks.drop_first().len() implies #[trigger] marks.drop_first()[i]
            == '\u{feff}' by {
            assert(marks.drop_first()[i] == marks[i + 1]);
        }
        lemma_marks_go(marks.drop_first(), s);
        assert((marks + s).drop_first() =~= marks.drop_first() + s);
    }
}

/// A line is the path that stands on it, whatever the path begins with but a comment's
/// sign, without byte order marks in front of it and white space around it.
pub proof fn a_line_is_a_path(
    marks: Seq<char>,
    before: Seq<char>,
    path: Seq<char>,
    after: Seq<char>,
)
    requires
        forall|i: int| 0 <= i < marks.len() ==> #[trigger] marks[i] == '\u{feff}',
        text::is_blank(before),
        text::is_blank(after),
        path.len() > 0,
        !text::is_white_space(path[0]),
        !text::is_white_space(path.last()),
        path[0] != '#',
        before.len() == 0 ==> path[0] != '\u{feff}',
    ensures
        entry_of(marks + before + path + after) == Some(path),
{
    let rest = before + path + after;
    assert(marks + before + path + after =~= marks + rest);
    if before.len() > 0 {
        assert(text::is_white_space(before[0]));
    }
    lemma_marks_go(marks, rest);
    text::margins_are_trimmed(before, path, after);
}

/// A blank line names nothing, and neither does a comment.
pub proof fn a_comment_is_no_path(
    marks: Seq<char>,
    before: Seq<char>,
    comment: Seq<char>,
)
    requires
        forall|i: int| 0 <= i < marks.len() ==> #[trigger] marks[i] == '\u{feff}',
        text::is_blank(before),
        comment.len() > 0 ==> comment[0] == '#',
    ensures
        entry_of(marks + before + comment) is None,
{
    let rest = before + comment;
    assert(marks + before + comment =~= marks + rest);
    if before.len() > 0 {
        assert(text::is_white_space(before[0]));
    }
    lemma_marks_go(marks, rest);
    if comment.len() == 0 {
        assert(rest =~= before);
        text::lemma_trimmed_blank(before);
    } else {
        text::lemma_front_margin(before, comment);
        text::lemma_trimmed_end_keeps_head(comment);
    }
}

/// A list is read line by line, in order: the line that stands between two parts of it
/// names its path between the paths of the parts.
pub proof fn a_list_is_read_line_by_line(a: Seq<char>, line: Seq<char>, b: Seq<char>)
    requires
        a.len() == 0 || a.last() == '\n',
        forall|i: int| 0 <= i < line.len() ==> #[trigger] line[i] != '\n',
        line.len() > 0 ==> line.last() != '\r',
    ensures
        paths_of(a + line.push('\n') + b) == paths_of(a) + (match entry_of(line) {
            Some(path) => seq![path],
            None => seq![],
        }) + paths_of(b),
{
    text::a_line_feed_ends_a_line(line, b);
    let rest = line.push('\n') + b;
    assert(a + line.push('\n') + b =~= a + rest);
    text::lemma_lines_concat(a, rest);
    lemma_entries_concat(text::lines_of(a), text::lines_of(rest));
    lemma_entries_concat(seq![line], text::lines_of(b));
    assert(seq![line].drop_last() =~= seq![]);
    assert(entries_of(seq![line].drop_last()) =~= seq![]);
    assert(entries_of(seq![line]) =~= (match entry_of(line) {
        Some(path) => seq![path],
        None => seq![],
    }));
    assert(paths_of(a + rest) =~= paths_of(a) + entries_of(seq![line]) + paths_of(b));
}

proof fn lemma_row_lines(row: ExportRow)
    requires
        fits_a_list(row.file_path@),
    ensures
        text::lines_of(row_text(row)) == seq![info_line(row), row.file_path@],
        row_text(row).last() == '\n',
        info_line(row).len() > 0,
{
    let info = info_line(row);
    let path = row.file_path@;
    lemma_row_entries(row);
    reveal_strlit("\n");
    reveal_strlit("#EXTINF:");
    reveal_strlit(",");
    lemma_int_text_one_line(whole_seconds(row.duration_ms as int));
    let number = decimal::int_text(whole_seconds(row.duration_ms as int));
    let about = one_line(description(row));
    assert forall|i: int| 0 <= i < info.len() implies #[trigger] info[i] != '\n' by {
        if i < 8 {
        } else if i < 8 + number.len() {
            assert(info[i] == number[i - 8]);
        } else if i == 8 + number.len() {
        } else {
            assert(info[i] == about[i - 9 - number.len()]);
        }
    }
    assert(info.last() != '\r') by {
        if about.len() > 0 {
            assert(info.last() == about.last());
        }
    }
    assert(row_text(row) =~= info.push('\n') + (path.push('\n') + seq![]));
    text::a_line_feed_ends_a_line(info, path.push('\n') + seq![]);
    text::a_line_feed_ends_a_line(path, seq![]);
    assert(seq![info] + (seq![path] + text::lines_of(Seq::<char>::empty())) =~= seq![info, path]);
}

proof fn lemma_rows_lines(rows: Seq<ExportRow>)
    requires
        forall|i: int| 0 <= i < rows.len() ==> fits_a_list((#[trigger] rows[i]).file_path@),
    ensures
        text::lines_of(rows_text(rows)).len() == 2 * rows.len(),
        forall|i: int|
            #![trigger rows[i]]
            0 <= i < rows.len() ==> text::lines_of(rows_text(rows))[2 * i] == info_line(rows[i])
                && text::lines_of(rows_text(rows))[2 * i + 1] == rows[i].file_path@,
        rows.len() > 0 ==> rows_text(rows).last() == '\n',
        rows.len() == 0 ==> rows_text(rows).len() == 0,
    decreases rows.len(),
{
    if rows.len() > 0 {
        let rest = rows.drop_last();
        assert forall|i: int| 0 <= i < rest.len() implies fits_a_list(
            (#[trigger] rest[i]).file_path@,
        ) by {
            assert(rest[i] == rows[i]);
        }
        lemma_rows_lines(rest);
        lemma_row_lines(rows.last());
        text::lemma_lines_concat(rows_text(rest), row_text(rows.last()));
        assert forall|i: int|
            #![trigger rows[i]]
            0 <= i < rows.len() implies text::lines_of(rows_text(rows))[2 * i] == info_line(rows[i])
            && text::lines_of(rows_text(rows))[2 * i + 1] == rows[i].file_path@ by {
            if i < rest.len() {
                assert(rest[i] == rows[i]);
            }
        }
    }
}

/// A written list has a header, the list's name, and for each track, in order, a line
/// that describes it and the line of its path.
pub proof fn a_written_list_holds_each_track(name: Seq<char>, rows: Seq<ExportRow>)
    requires
        forall|i: int| 0 <= i < rows.len() ==> fits_a_list((#[trigger] rows[i]).file_path@),
    ensures
        text::lines_of(m3u_text(name, rows)).len() == 2 + 2 * rows.len(),
        text::lines_of(m3u_text(name, rows))[0] == "#EXTM3U"@,
        text::lines_of(m3u_text(name, rows))[1] == "#PLAYLIST:"@ + one_line(name),
        forall|i: int|
            #![trigger rows[i]]
            0 <= i < rows.len() ==> text::lines_of(m3u_text(name, rows))[2 + 2 * i] == info_line(
                rows[i],
            ) && text::lines_of(m3u_text(name, rows))[3 + 2 * i] == rows[i].file_path@,
{
    reveal_strlit("#EXTM3U\n");
    reveal_strlit("#EXTM3U");
    reveal_strlit("#PLAYLIST:");
    reveal_strlit("\n");
    let first = "#EXTM3U"@;
    let second = "#PLAYLIST:"@ + one_line(name);
    assert forall|i: int| 0 <= i < second.len() implies #[trigger] second[i] != '\n' by {
        if i >= 10 {
            assert(second[i] == one_line(name)[i - 10]);
        }
    }
    assert(second.last() != '\r') by {
        if name.len() > 0 {
            assert(second.last() == one_line(name).last());
        }
    }
    let rest = rows_text(rows);
    text::a_line_feed_ends_a_line(first, second.push('\n') + rest);
    text::a_line_feed_ends_a_line(second, rest);
    assert(m3u_text(name, rows) =~= first.push('\n') + (second.push('\n') + rest));
    lemma_rows_lines(rows);
    let all = text::lines_of(m3u_text(name, rows));
    assert(all =~= seq![first, second] + text::lines_of(rest));
}

/// A track is described by its whole seconds, none below zero, and by its artist, trimmed,
/// and its title, or by its title alone where no artist is known; all on one line.
pub proof fn a_track_is_described_by_its_own_fields(row: ExportRow)
    ensures
        row.artist_name matches Some(a) && !text::is_blank(a@) && row.duration_ms >= 0 ==> info_line(
            row,
        ) == "#EXTINF:"@ + decimal::int_text(row.duration_ms as int / 1000) + ","@ + one_line(
            text::trimmed(row.artist_name->0@) + " - "@ + row.title@,
        ),
        row.artist_name is None || text::is_blank(row.artist_name->0@) ==> info_line(row)
            == "#EXTINF:"@ + decimal::int_text(
            if row.duration_ms < 0 {
                0
            } else {
                row.duration_ms as int / 1000
            },
        ) + ","@ + one_line(row.title@),
        row.duration_ms < 0 ==> exists|rest: Seq<char>| #[trigger]
            ("#EXTINF:"@ + decimal::int_text(0) + rest) == info_line(row),
{
    if row.duration_ms < 0 {
        let rest = ","@ + one_line(description(row));
        assert("#EXTINF:"@ + decimal::int_text(0) + rest =~= info_line(row));
    }
}

/// A text on one line has a space for each line break and is the same elsewhere.
pub proof fn only_line_breaks_become_spaces(s: Seq<char>)
    ensures
        one_line(s).len() == s.len(),
        forall|i: int|
            0 <= i < s.len() ==> #[trigger] one_line(s)[i] == (if s[i] == '\n' || s[i] == '\r' {
                ' '
            } else {
                s[i]
            }),
{
}

/// Bytes that encode a text stand for that text; others stand for one character each,
/// with the byte's number.
pub proof fn bytes_stand_for_their_text(s: Seq<char>, bytes: Seq<u8>)
    ensures
        decoded(vstd::utf8::encode_utf8(s)) == s,
        !vstd::utf8::valid_utf8(bytes) ==> decoded(bytes).len() == bytes.len() && forall|i: int|
            0 <= i < bytes.len() ==> (#[trigger] decoded(bytes)[i]) as int == bytes[i] as int,
{
    broadcast use {vstd::utf8::encode_utf8_valid_utf8, vstd::utf8::encode_utf8_decode_utf8};

    assert forall|i: int| 0 <= i < bytes.len() && !vstd::utf8::valid_utf8(bytes) implies (
    #[trigger] decoded(bytes)[i]) as int == bytes[i] as int by {
        assert(decoded(bytes)[i] == bytes[i] as char);
    }
}

// What a path is matched by.

/// Away from Windows a path is known by itself. On Windows case does not matter, and
/// neither does it whether a path is marked to be taken literally.
pub proof fn a_path_is_known_by_what_it_leads_to(path: Seq<char>)
    ensures
        path_key(path, false) == path,
        path.len() < 4 || path.take(4) != seq!['\\', '\\', '?', '\\'] ==> path_key(path, true)
            == text::unicode_lowercase(path),
        path.len() < 4 || !text::same_ignoring_ascii_case(path.take(4), seq!['u', 'n', 'c', '\\'])
            ==> path_key(seq!['\\', '\\', '?', '\\'] + path, true) == text::unicode_lowercase(path),
        path_key(seq!['\\', '\\', '?', '\\', 'U', 'N', 'C', '\\'] + path, true)
            == text::unicode_lowercase(seq!['\\', '\\'] + path),
        path_key(seq!['\\', '\\', '?', '\\', 'u', 'n', 'c', '\\'] + path, true)
            == text::unicode_lowercase(seq!['\\', '\\'] + path),
{
    reveal_strlit("\\\\");
    let verbatim = seq!['\\', '\\', '?', '\\'] + path;
    assert(verbatim.skip(4) =~= path);
    let share = seq!['\\', '\\', '?', '\\', 'U', 'N', 'C', '\\'] + path;
    assert(share.skip(8) =~= path);
    let small = seq!['\\', '\\', '?', '\\', 'u', 'n', 'c', '\\'] + path;
    assert(small.skip(8) =~= path);
    if is_verbatim(path) {
        assert(path.take(4) =~= seq!['\\', '\\', '?', '\\']);
    }
    if is_verbatim_share(verbatim) {
        assert(verbatim[4] == path[0] && verbatim[5] == path[1] && verbatim[6] == path[2]
            && verbatim[7] == path[3]);
        let unc = seq!['u', 'n', 'c', '\\'];
        text::texts_are_compared_character_by_character(path.take(4), unc);
        assert(text::ascii_lowercase(path.take(4)) =~= text::ascii_lowercase(unc));
    }
    assert("\\\\"@ =~= seq!['\\', '\\']);
}

/// A track that a list's path is matched with has that path, and where none has, a file
/// of that name; a path is missing only where no track has either.
pub proof fn a_match_has_the_path_or_the_name(library: Seq<LibraryPath>, keys: PathKeys)
    ensures
        matching_track(library, keys) matches Some(id) ==> exists|k: int|
            0 <= k < library.len() && (#[trigger] library[k]).id == id && (library[k].keys.key@
                == keys.key@ || ((forall|j: int|
                0 <= j < library.len() ==> (#[trigger] library[j]).keys.key@ != keys.key@)
                && same_base(library[k].keys, keys))),
        matching_track(library, keys) is None ==> forall|k: int|
            0 <= k < library.len() ==> (#[trigger] library[k]).keys.key@ != keys.key@
                && !same_base(library[k].keys, keys),
{
    lemma_same_path(library, keys);
    lemma_same_name(library, keys);
}

proof fn lemma_same_path(library: Seq<LibraryPath>, keys: PathKeys)
    ensures
        same_path_track(library, keys) matches Some(id) ==> exists|k: int|
            0 <= k < library.len() && (#[trigger] library[k]).id == id && library[k].keys.key@
                == keys.key@,
        same_path_track(library, keys) is None ==> forall|k: int|
            0 <= k < library.len() ==> (#[trigger] library[k]).keys.key@ != keys.key@,
    decreases library.len(),
{
    if library.len() > 0 {
        let rest = library.drop_last();
        lemma_same_path(rest, keys);
        assert forall|k: int| 0 <= k < rest.len() implies rest[k] == #[trigger] library[k] by {}
        if library.last().keys.key@ == keys.key@ {
            assert(library[library.len() - 1].id == library.last().id);
        } else if same_path_track(rest, keys) is Some {
            let k = choose|k: int|
                0 <= k < rest.len() && (#[trigger] rest[k]).id == same_path_track(rest, keys)->0
                    && rest[k].keys.key@ == keys.key@;
            assert(library[k] == rest[k]);
        }
    }
}

proof fn lemma_same_name(library: Seq<LibraryPath>, keys: PathKeys)
    ensures
        same_name_track(library, keys) matches Some(id) ==> exists|k: int|
            0 <= k < library.len() && (#[trigger] library[k]).id == id && same_base(
                library[k].keys,
                keys,
            ),
        same_name_track(library, keys) is None ==> forall|k: int|
            0 <= k < library.len() ==> !same_base((#[trigger] library[k]).keys, keys),
    decreases library.len(),
{
    if library.len() > 0 {
        let rest = library.drop_last();
        lemma_same_name(rest, keys);
        assert forall|k: int| 0 <= k < rest.len() implies rest[k] == #[trigger] library[k] by {}
        if same_base(library.last().keys, keys) {
            assert(library[library.len() - 1].id == library.last().id);
        } else if same_name_track(rest, keys) is Some {
            let k = choose|k: int|
                0 <= k < rest.len() && (#[trigger] rest[k]).id == same_name_track(rest, keys)->0
                    && same_base(rest[k].keys, keys);
            assert(library[k] == rest[k]);
        }
    }
}

/// Two files have the same name where both have one that is text, and the two are the
/// same in lower case.
pub proof fn names_are_compared_in_lower_case(a: PathKeys, b: PathKeys)
    ensures
        same_base(a, b) <==> a.base is Some && b.base is Some && text::unicode_lowercase(
            a.base->0@,
        ) == text::unicode_lowercase(b.base->0@),
        same_base(a, b) == same_base(b, a),
{
}

/// Each path of a list is either matched or missing, in the list's order: one more path
/// adds its track to the tracks, or itself to what is missing.
pub proof fn every_path_is_matched_or_missing(
    library: Seq<LibraryPath>,
    candidates: Seq<Candidate>,
    one: Candidate,
)
    ensures
        matching_track(library, one.keys) matches Some(id) ==> {
            &&& matched(library, candidates.push(one)) == matched(library, candidates).push(id)
            &&& unmatched(library, candidates.push(one)) == unmatched(library, candidates)
        },
        matching_track(library, one.keys) is None ==> {
            &&& matched(library, candidates.push(one)) == matched(library, candidates)
            &&& unmatched(library, candidates.push(one)) == unmatched(library, candidates).push(
                one.path@,
            )
        },
        matched(library, Seq::<Candidate>::empty()).len() == 0,
        unmatched(library, Seq::<Candidate>::empty()).len() == 0,
{
    assert(candidates.push(one).drop_last() =~= candidates);
}

/// An imported list is called what its file is, trimmed, and by a name of its own where
/// that is blank or no text.
pub proof fn an_imported_list_is_called_after_its_file(stem: Seq<char>)
    ensures
        !text::is_blank(stem) ==> imported_name_of(Some(stem)) == text::trimmed(stem),
        text::is_blank(stem) ==> imported_name_of(Some(stem)) == "Imported playlist"@,
        imported_name_of(None) == "Imported playlist"@,
{
}

} // verus!
