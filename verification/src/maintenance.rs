//! Bulk operations on what the application keeps: thumbnails, and the backup
//! that is made before everything is wiped.

use vstd::prelude::*;
use vstd::string::StringExecFns;

use crate::decimal;
use crate::decimal::i64_text;
use crate::text;
use crate::text::{blank, chars_of, string_of};

verus! {

/// Whether a character may stand in a file's name as it is.
pub open spec fn is_harmless(c: char) -> bool {
    text::is_word_char(c) || c == '-' || c == '_' || c == ' '
}

/// A name with every character that may not stand in a file's name replaced.
pub open spec fn cleaned(name: Seq<char>) -> Seq<char> {
    name.map_values(
        |c: char|
            if is_harmless(c) {
                c
            } else {
                '_'
            },
    )
}

/// A name made fit to be a file's: what is left of it, trimmed, and `profile`
/// where nothing is.
pub open spec fn file_name_of(name: Seq<char>) -> Seq<char> {
    if text::is_blank(cleaned(name)) {
        "profile"@
    } else {
        text::trimmed(cleaned(name))
    }
}

/// A character that parts a path, or a name from its extension.
pub open spec fn parts_paths(c: char) -> bool {
    c == '/' || c == '\\' || c == ':' || c == '.'
}

/// Where white space ends at the front of a text.
proof fn lemma_start_cut(s: Seq<char>) -> (i: int)
    ensures
        0 <= i <= s.len(),
        text::trimmed_start(s) == s.skip(i),
        forall|k: int| 0 <= k < i ==> text::is_white_space(#[trigger] s[k]),
    decreases s.len(),
{
    if s.len() > 0 && text::is_white_space(s[0]) {
        let i = lemma_start_cut(s.drop_first());
        assert(s.drop_first().skip(i) =~= s.skip(i + 1));
        assert forall|k: int| 0 <= k < i + 1 implies text::is_white_space(#[trigger] s[k]) by {
            if k > 0 {
                assert(s.drop_first()[k - 1] == s[k]);
            }
        }
        i + 1
    } else {
        assert(s.skip(0) =~= s);
        0
    }
}

/// Where white space begins at the end of a text.
proof fn lemma_end_cut(s: Seq<char>) -> (j: int)
    ensures
        0 <= j <= s.len(),
        text::trimmed_end(s) == s.take(j),
        forall|k: int| j <= k < s.len() ==> text::is_white_space(#[trigger] s[k]),
    decreases s.len(),
{
    if s.len() > 0 && text::is_white_space(s.last()) {
        let j = lemma_end_cut(s.drop_last());
        assert(s.drop_last().take(j) =~= s.take(j));
        assert forall|k: int| j <= k < s.len() implies text::is_white_space(#[trigger] s[k]) by {
            if k < s.len() - 1 {
                assert(s.drop_last()[k] == s[k]);
            }
        }
        j
    } else {
        assert(s.take(s.len() as int) =~= s);
        s.len() as int
    }
}

proof fn lemma_trimmed_part(s: Seq<char>)
    ensures
        forall|i: int| 0 <= i < text::trimmed(s).len() ==> s.contains(#[trigger] text::trimmed(s)[i]),
{
    let from = lemma_start_cut(s);
    let to = lemma_end_cut(text::trimmed_start(s));
    assert forall|i: int| 0 <= i < text::trimmed(s).len() implies s.contains(
        #[trigger] text::trimmed(s)[i],
    ) by {
        assert(text::trimmed(s)[i] == s[from + i]);
    }
}

/// A name made fit to be a file's: it is never empty, and nothing in it parts a
/// path or begins an extension.
pub fn sanitize_filename(name: &str) -> (r: String)
    ensures
        r@ == file_name_of(name@),
        r@.len() > 0,
        forall|i: int| 0 <= i < r@.len() ==> !parts_paths(#[trigger] r@[i]),
{
    let c = chars_of(name);
    let mut kept = String::new();
    let total: usize = c.len();
    let mut i: usize = 0;
    while i < total
        invariant
            total == c@.len(),
            c@ == name@,
            i <= total,
            kept@ == cleaned(name@.take(i as int)),
            forall|j: int| 0 <= j < kept@.len() ==> !parts_paths(#[trigger] kept@[j]),
        decreases total - i,
    {
        let x = c[i];
        let ghost earlier = kept@;
        if x.is_alphanumeric() || x == '-' || x == '_' || x == ' ' {
            kept.push(x);
        } else {
            kept.push('_');
        }
        assert(kept@ =~= cleaned(name@.take(i + 1)));
        i = i + 1;
    }
    assert(name@.take(total as int) =~= name@);
    if blank(kept.as_str()) {
        proof {
            reveal_strlit("profile");
        }
        "profile".to_owned()
    } else {
        let r = kept.as_str().trim();
        proof {
            lemma_trimmed_part(kept@);
            assert forall|j: int| 0 <= j < r@.len() implies !parts_paths(#[trigger] r@[j]) by {
                assert(kept@.contains(r@[j]));
            }
            text::lemma_trimmed_blank(kept@);
        }
        r.to_owned()
    }
}

proof fn lemma_end_not_white(s: Seq<char>)
    ensures
        text::trimmed_end(s).len() > 0 ==> !text::is_white_space(text::trimmed_end(s).last()),
    decreases s.len(),
{
    if s.len() > 0 && text::is_white_space(s.last()) {
        lemma_end_not_white(s.drop_last());
    }
}

/// Whether a text is another one with spaces cut from both ends.
pub open spec fn spaces_cut(cut: Seq<char>, s: Seq<char>, from: int, to: int) -> bool {
    &&& 0 <= from <= to <= s.len()
    &&& cut == s.subrange(from, to)
    &&& forall|k: int| 0 <= k < s.len() && !(from <= k < to) ==> #[trigger] s[k] == ' '
}

/// A name that is not all spaces keeps its place: each character that may not stand in a
/// file's name becomes a low line, every other one stays, and spaces at the ends go. So
/// a name that may stand as it is, with no space at its ends, is the file's name.
pub proof fn a_name_keeps_its_characters(name: Seq<char>)
    requires
        !(forall|i: int| 0 <= i < name.len() ==> #[trigger] name[i] == ' '),
    ensures
        exists|from: int, to: int| #[trigger]
            spaces_cut(file_name_of(name), cleaned(name), from, to),
        file_name_of(name)[0] != ' ',
        file_name_of(name).last() != ' ',
        name[0] != ' ' && name.last() != ' ' && (forall|i: int|
            0 <= i < name.len() ==> is_harmless(#[trigger] name[i])) ==> file_name_of(name) == name,
{
    let c = cleaned(name);
    let k = choose|k: int| 0 <= k < name.len() && #[trigger] name[k] != ' ';
    assert(!text::is_white_space(c[k]));
    let t = text::trimmed_start(c);
    let i = lemma_start_cut(c);
    let j = lemma_end_cut(t);
    assert forall|m: int| 0 <= m < c.len() && !(i <= m < i + j) implies #[trigger] c[m] == ' ' by {
        assert(is_harmless(c[m]));
        if m >= i + j {
            assert(t[m - i] == c[m]);
        }
    }
    assert(t.take(j) =~= c.subrange(i, i + j));
    assert(spaces_cut(file_name_of(name), c, i, i + j));
    a_fit_name_stays(name);
    if name[0] != ' ' && name.last() != ' ' && (forall|m: int|
        0 <= m < name.len() ==> is_harmless(#[trigger] name[m])) {
        assert(c =~= name);
        assert(i == 0);
        assert(c[c.len() - 1] != ' ');
        assert(j == c.len());
        assert(c.subrange(0, c.len() as int) =~= name);
    }
}

/// A name that was made fit to be a file's is fit: it is not empty, holds nothing but
/// letters, digits, hyphens, low lines and spaces, begins and ends with no white space,
/// and making it fit again changes nothing. Of nothing but spaces it is `profile`.
pub proof fn a_fit_name_stays(name: Seq<char>)
    ensures
        file_name_of(name).len() > 0,
        forall|i: int|
            0 <= i < file_name_of(name).len() ==> is_harmless(#[trigger] file_name_of(name)[i]),
        !text::is_white_space(file_name_of(name)[0]),
        !text::is_white_space(file_name_of(name).last()),
        file_name_of(file_name_of(name)) == file_name_of(name),
        (forall|i: int| 0 <= i < name.len() ==> #[trigger] name[i] == ' ') ==> file_name_of(name)
            == "profile"@,
{
    if forall|i: int| 0 <= i < name.len() ==> #[trigger] name[i] == ' ' {
        assert forall|i: int| 0 <= i < name.len() implies text::is_white_space(
            #[trigger] cleaned(name)[i],
        ) by {
            assert(name[i] == ' ');
        }
    }
    let r = file_name_of(name);
    let c = cleaned(name);
    if text::is_blank(c) {
        reveal_strlit("profile");
        assert(r[0] == 'p');
        assert(r.last() == 'e');
    } else {
        lemma_trimmed_part(c);
        assert forall|i: int| 0 <= i < r.len() implies is_harmless(#[trigger] r[i]) by {
            assert(c.contains(r[i]));
            let j = choose|j: int| 0 <= j < c.len() && c[j] == r[i];
            assert(is_harmless(c[j]));
        }
        text::lemma_trimmed_blank(c);
        let t = text::trimmed_start(c);
        text::lemma_trimmed_start_blank(c);
        text::lemma_trimmed_end_keeps_head(t);
        lemma_end_not_white(t);
    }
    assert(cleaned(r) =~= r);
    assert(!text::is_white_space(r[0]));
    assert(text::trimmed_start(r) == r);
    assert(text::trimmed_end(r) == r);
}

/// An archive of a profile, made before everything is wiped.
#[derive(PartialEq, Eq, Debug)]
pub struct SafetyBackup {
    /// What the archive is called.
    pub name: String,
    /// What it is called while it is being written.
    pub staging_name: String,
    /// Whether the profile's database is first to be brought up to date from its
    /// own file, nobody having it open.
    pub checkpoint_file: bool,
}

/// What an archive's name has before its extension.
pub open spec fn backup_stem(profile_id: i64, profile_name: Seq<char>, stamp: Seq<char>) -> Seq<char> {
    "pre-reset-"@ + file_name_of(profile_name) + "-"@ + decimal::int_text(profile_id as int) + "-"@
        + stamp
}

/// How a profile is backed up before everything is wiped.
pub fn safety_backup(
    profile_id: i64,
    profile_name: &str,
    active_id: Option<i64>,
    stamp: &str,
) -> (r: SafetyBackup)
    ensures
        r.name@ == backup_stem(profile_id, profile_name@, stamp@) + ".waveflow"@,
        r.staging_name@ == backup_stem(profile_id, profile_name@, stamp@) + ".part"@,
        r.checkpoint_file == (active_id != Some(profile_id)),
{
    let mut name = "pre-reset-".to_owned();
    name.append(sanitize_filename(profile_name).as_str());
    name.append("-");
    name.append(i64_text(profile_id).as_str());
    name.append("-");
    name.append(stamp);
    let mut staging_name = name.clone();
    name.append(".waveflow");
    staging_name.append(".part");
    let checkpoint_file = match active_id {
        Some(id) => id != profile_id,
        None => true,
    };
    SafetyBackup { name, staging_name, checkpoint_file }
}

/// Two profiles are never backed up under one name at one time, whatever they
/// are called.
pub proof fn backups_do_not_collide(
    a: i64,
    b: i64,
    a_name: Seq<char>,
    b_name: Seq<char>,
    stamp: Seq<char>,
)
    requires
        0 <= a,
        0 <= b,
        a != b,
    ensures
        backup_stem(a, a_name, stamp) != backup_stem(b, b_name, stamp),
{
    let x = "pre-reset-"@ + file_name_of(a_name) + "-"@;
    let y = "pre-reset-"@ + file_name_of(b_name) + "-"@;
    let p = decimal::nat_text(a as nat);
    let q = decimal::nat_text(b as nat);
    let t = "-"@ + stamp;
    reveal_strlit("-");
    if backup_stem(a, a_name, stamp) == backup_stem(b, b_name, stamp) {
        let all = backup_stem(a, a_name, stamp);
        assert(all =~= x + p + t);
        assert(all =~= y + q + t);
        decimal::lemma_nat_text_digits(a as nat);
        decimal::lemma_nat_text_digits(b as nat);
        assert(x.last() == '-' && y.last() == '-');
        if p.len() < q.len() {
            assert(all[x.len() - 1] == x.last());
            assert(all[x.len() - 1] == q[x.len() - 1 - y.len()]);
        } else if q.len() < p.len() {
            assert(all[y.len() - 1] == y.last());
            assert(all[y.len() - 1] == p[y.len() - 1 - x.len()]);
        } else {
            assert forall|i: int| 0 <= i < p.len() implies p[i] == q[i] by {
                assert(all[x.len() + i] == p[i]);
                assert(all[y.len() + i] == q[i]);
            }
            assert(p =~= q);
            decimal::lemma_nat_text_injective(a as nat, b as nat);
        }
    }
}

/// Whether a picture of this stem is a full-size one, which thumbnails are made
/// of, and no thumbnail itself.
pub open spec fn is_full_size(stem: Seq<char>) -> bool {
    !"_1x"@.is_suffix_of(stem) && !"_2x"@.is_suffix_of(stem)
}

/// Whether a picture of this stem is a full-size one.
pub fn wants_thumbnails(stem: &str) -> (r: bool)
    ensures
        r == is_full_size(stem@),
{
    let c = chars_of(stem);
    let n: usize = c.len();
    proof {
        reveal_strlit("_1x");
        reveal_strlit("_2x");
    }
    if n < 3 {
        return true;
    }
    let tail = string_of(&c, n - 3, n);
    proof {
        assert("_1x"@.is_suffix_of(stem@) == (tail@ == "_1x"@)) by {
            assert(stem@.subrange(n - 3, n as int) =~= tail@);
            if tail@ == "_1x"@ {
                assert forall|i: int| 0 <= i < 3 implies "_1x"@[i] == stem@[n - 3 + i] by {
                    assert(tail@[i] == stem@[n - 3 + i]);
                }
            }
        }
        assert("_2x"@.is_suffix_of(stem@) == (tail@ == "_2x"@)) by {
            assert(stem@.subrange(n - 3, n as int) =~= tail@);
            if tail@ == "_2x"@ {
                assert forall|i: int| 0 <= i < 3 implies "_2x"@[i] == stem@[n - 3 + i] by {
                    assert(tail@[i] == stem@[n - 3 + i]);
                }
            }
        }
    }
    !text::same_text(tail.as_str(), "_1x") && !text::same_text(tail.as_str(), "_2x")
}

/// The sum of some counts, and the largest count where it is larger.
pub open spec fn capped_sum(counts: Seq<u32>) -> u32
    decreases counts.len(),
{
    if counts.len() == 0 {
        0
    } else {
        let sum = capped_sum(counts.drop_last()) + counts.last();
        if sum > u32::MAX {
            u32::MAX
        } else {
            sum as u32
        }
    }
}

/// How many pictures were done in all, directory by directory.
pub fn regenerated(counts: &Vec<u32>) -> (r: u32)
    ensures
        r == capped_sum(counts@),
{
    let mut sum: u32 = 0;
    let total: usize = counts.len();
    let mut i: usize = 0;
    while i < total
        invariant
            total == counts@.len(),
            i <= total,
            sum == capped_sum(counts@.take(i as int)),
        decreases total - i,
    {
        assert(counts@.take(i + 1).drop_last() =~= counts@.take(i as int));
        sum = sum.saturating_add(counts[i]);
        i = i + 1;
    }
    assert(counts@.take(total as int) =~= counts@);
    sum
}

/// Letters, digits, hyphens, low lines and spaces stay in a file's name, and every other
/// character becomes a low line.
pub proof fn only_harmless_characters_stay(name: Seq<char>, i: int)
    requires
        0 <= i < name.len(),
    ensures
        cleaned(name).len() == name.len(),
        text::is_word_char(name[i]) || name[i] == '-' || name[i] == '_' || name[i] == ' ' ==> cleaned(
            name,
        )[i] == name[i],
        !(text::is_word_char(name[i]) || name[i] == '-' || name[i] == '_' || name[i] == ' ')
            ==> cleaned(name)[i] == '_',
        parts_paths('/') && parts_paths('\\') && parts_paths(':') && parts_paths('.'),
{
}

/// A backup is called after its profile, with the profile's number and the time.
pub proof fn a_backup_names_its_profile(profile_id: i64, name: Seq<char>, stamp: Seq<char>)
    ensures
        backup_stem(profile_id, name, stamp) == "pre-reset-"@ + file_name_of(name) + "-"@
            + decimal::int_text(profile_id as int) + "-"@ + stamp,
{
}

/// A thumbnail is known by the end of its name, and no picture with another end is one.
pub proof fn a_thumbnail_is_known_by_its_end(stem: Seq<char>)
    ensures
        !is_full_size(stem + "_1x"@),
        !is_full_size(stem + "_2x"@),
        is_full_size(stem) <==> !"_1x"@.is_suffix_of(stem) && !"_2x"@.is_suffix_of(stem),
{
    reveal_strlit("_1x");
    reveal_strlit("_2x");
    let (a, b) = (stem + "_1x"@, stem + "_2x"@);
    assert(a.subrange(a.len() - 3, a.len() as int) =~= "_1x"@);
    assert(b.subrange(b.len() - 3, b.len() as int) =~= "_2x"@);
}

/// Counts are added up, each once, and the sum stops at the largest number.
pub proof fn counts_add_up(counts: Seq<u32>, n: u32)
    ensures
        capped_sum(Seq::<u32>::empty()) == 0,
        capped_sum(counts) + n <= u32::MAX ==> capped_sum(counts.push(n)) == capped_sum(counts) + n,
        capped_sum(counts) + n > u32::MAX ==> capped_sum(counts.push(n)) == u32::MAX,
{
    assert(counts.push(n).drop_last() =~= counts);
}

} // verus!
