//! Text as a sequence of characters: what trimming, splitting and lower-casing
//! mean, and the executable functions that do them.

use vstd::prelude::*;

verus! {

broadcast use vstd::string::group_string_axioms;

/// The characters with the Unicode property `White_Space`.
pub open spec fn is_white_space(c: char) -> bool {
    let n = c as int;
    ||| 0x09 <= n <= 0x0D
    ||| n == 0x20
    ||| n == 0x85
    ||| n == 0xA0
    ||| n == 0x1680
    ||| 0x2000 <= n <= 0x200A
    ||| n == 0x2028
    ||| n == 0x2029
    ||| n == 0x202F
    ||| n == 0x205F
    ||| n == 0x3000
}

/// `s` without its leading white space.
pub open spec fn trimmed_start(s: Seq<char>) -> Seq<char>
    decreases s.len(),
{
    if s.len() > 0 && is_white_space(s[0]) {
        trimmed_start(s.drop_first())
    } else {
        s
    }
}

/// `s` without its trailing white space.
pub open spec fn trimmed_end(s: Seq<char>) -> Seq<char>
    decreases s.len(),
{
    if s.len() > 0 && is_white_space(s.last()) {
        trimmed_end(s.drop_last())
    } else {
        s
    }
}

/// `s` without white space at either end.
pub open spec fn trimmed(s: Seq<char>) -> Seq<char> {
    trimmed_end(trimmed_start(s))
}

/// Nothing but white space, or nothing at all.
pub open spec fn is_blank(s: Seq<char>) -> bool {
    forall|i: int| 0 <= i < s.len() ==> is_white_space(#[trigger] s[i])
}

/// The digits `0` to `9`.
pub open spec fn is_digit(c: char) -> bool {
    '0' <= c && c <= '9'
}

/// The lower-case form of an ASCII letter; any other character is itself.
pub open spec fn ascii_lower(c: char) -> char {
    if 'A' <= c && c <= 'Z' {
        ((c as int) + 32) as char
    } else {
        c
    }
}

/// `s` with every ASCII letter in lower case.
pub open spec fn ascii_lowercase(s: Seq<char>) -> Seq<char> {
    s.map_values(|c: char| ascii_lower(c))
}

/// The same text but for the case of ASCII letters.
pub open spec fn same_ignoring_ascii_case(a: Seq<char>, b: Seq<char>) -> bool {
    ascii_lowercase(a) == ascii_lowercase(b)
}

/// Whether `part` occurs in `s` at position `at`.
pub open spec fn occurs_at(s: Seq<char>, part: Seq<char>, at: int) -> bool {
    &&& 0 <= at
    &&& at + part.len() <= s.len()
    &&& s.subrange(at, at + part.len()) == part
}

/// Whether `part` occurs anywhere in `s`.
pub open spec fn has_part(s: Seq<char>, part: Seq<char>) -> bool {
    exists|at: int| #[trigger] occurs_at(s, part, at)
}

/// Where `c` first stands in `s`, or the length of `s` when it does not.
pub open spec fn first_index(s: Seq<char>, c: char) -> int
    decreases s.len(),
{
    if s.len() == 0 || s[0] == c {
        0
    } else {
        1 + first_index(s.drop_first(), c)
    }
}

/// The pieces of `s` between the separators `c`; always at least one.
pub open spec fn split_on(s: Seq<char>, c: char) -> Seq<Seq<char>>
    decreases s.len(),
{
    let k = first_index(s, c);
    if 0 <= k < s.len() {
        seq![s.take(k)] + split_on(s.skip(k + 1), c)
    } else {
        seq![s]
    }
}

/// A line without the carriage return that stood before its line feed.
pub open spec fn without_cr(s: Seq<char>) -> Seq<char> {
    if s.len() > 0 && s.last() == '\r' {
        s.drop_last()
    } else {
        s
    }
}

/// The lines of `s`: each ends at a line feed, a carriage return before that
/// feed belongs to the line ending, and the last line may lack one.
pub open spec fn lines_of(s: Seq<char>) -> Seq<Seq<char>>
    decreases s.len(),
{
    let k = first_index(s, '\n');
    if s.len() == 0 {
        Seq::empty()
    } else if 0 <= k < s.len() {
        seq![without_cr(s.take(k))] + lines_of(s.skip(k + 1))
    } else {
        seq![s]
    }
}

/// What the strings of a list hold.
pub open spec fn texts(v: Seq<String>) -> Seq<Seq<char>> {
    v.map_values(|x: String| x@)
}

/// What an optional string holds.
pub open spec fn opt_text(o: Option<String>) -> Option<Seq<char>> {
    match o {
        Some(x) => Some(x@),
        None => None,
    }
}

/// `str::to_lowercase` of the text, by Unicode's tables.
pub uninterp spec fn unicode_lowercase(s: Seq<char>) -> Seq<char>;

/// `char::is_alphanumeric` of the character, by Unicode's tables.
pub uninterp spec fn unicode_alphanumeric(c: char) -> bool;

/// A letter or a digit, as Unicode has them. None of them is white space.
pub open spec fn is_word_char(c: char) -> bool {
    if (c as int) < 128 {
        ('a' <= c && c <= 'z') || ('A' <= c && c <= 'Z') || is_digit(c)
    } else {
        unicode_alphanumeric(c) && !is_white_space(c)
    }
}

/// A text in lower case, as Unicode has it.
pub open spec fn lowered(s: Seq<char>) -> Seq<char> {
    if vstd::utf8::is_ascii_chars(s) {
        ascii_lowercase(s)
    } else {
        unicode_lowercase(s)
    }
}

/// `str::trim` removes white space, by the `White_Space` property, from both ends.
pub assume_specification[ str::trim ](s: &str) -> (r: &str)
    ensures
        r@ == trimmed(s@),
;

/// `str::trim_start` removes white space from the front.
pub assume_specification[ str::trim_start ](s: &str) -> (r: &str)
    ensures
        r@ == trimmed_start(s@),
;

/// `str::to_lowercase` is a function of the text; on ASCII text it changes the
/// ASCII letters alone.
pub assume_specification[ str::to_lowercase ](s: &str) -> (r: String)
    ensures
        r@ == unicode_lowercase(s@),
        vstd::utf8::is_ascii_chars(s@) ==> r@ == ascii_lowercase(s@),
;

/// `str::to_ascii_lowercase` changes the ASCII letters and nothing else.
pub assume_specification[ str::to_ascii_lowercase ](s: &str) -> (r: String)
    ensures
        r@ == ascii_lowercase(s@),
;

/// `char::is_alphanumeric` is a function of the character; among ASCII
/// characters it holds of the letters and digits, and of white space nowhere: the
/// letters and numbers that it goes by have other categories.
pub assume_specification[ char::is_alphanumeric ](c: char) -> (r: bool)
    ensures
        r == unicode_alphanumeric(c),
        (c as int) < 128 ==> r == (('a' <= c && c <= 'z') || ('A' <= c && c <= 'Z') || is_digit(c)),
        is_white_space(c) ==> !r,
;

/// `String::push` puts the character at the end.
pub assume_specification[ String::push ](s: &mut String, c: char)
    ensures
        final(s)@ == old(s)@.push(c),
;

/// The characters of a text, by position.
pub fn chars_of(s: &str) -> (v: Vec<char>)
    ensures
        v@ == s@,
{
    let mut v: Vec<char> = Vec::new();
    for c in it: s.chars()
        invariant
            it.seq() == s@,
            v@ == s@.take(it.index() as int),
    {
        v.push(c);
        assert(s@.take(it.index() + 1) =~= s@.take(it.index() as int).push(c));
    }
    assert(s@.take(s@.len() as int) =~= s@);
    v
}

/// The text made of the characters from `from` up to, not including, `to`.
pub fn string_of(v: &Vec<char>, from: usize, to: usize) -> (s: String)
    requires
        from <= to <= v@.len(),
    ensures
        s@ == v@.subrange(from as int, to as int),
{
    let mut s = String::new();
    let mut i: usize = from;
    while i < to
        invariant
            from <= i <= to <= v@.len(),
            s@ == v@.subrange(from as int, i as int),
        decreases to - i,
    {
        s.push(v[i]);
        assert(v@.subrange(from as int, i + 1) =~= v@.subrange(from as int, i as int).push(v@[i as int]));
        i = i + 1;
    }
    s
}

/// Whether two texts are the same.
pub fn same_text(a: &str, b: &str) -> (r: bool)
    ensures
        r == (a@ == b@),
{
    a.to_owned() == b.to_owned()
}

/// Whether a text begins with `prefix`.
pub fn begins_with(s: &Vec<char>, prefix: &str) -> (r: bool)
    ensures
        r == prefix@.is_prefix_of(s@),
{
    part_is_at(s, prefix, 0)
}

/// Whether `part` stands in `s` at position `at`.
pub fn part_is_at(s: &Vec<char>, part: &str, at: usize) -> (r: bool)
    requires
        at <= s@.len(),
    ensures
        r == occurs_at(s@, part@, at as int),
        at == 0 ==> r == part@.is_prefix_of(s@),
{
    let p = chars_of(part);
    let n: usize = p.len();
    if s.len() - at < n {
        return false;
    }
    let mut i: usize = 0;
    while i < n
        invariant
            p@ == part@,
            n == p@.len(),
            at + n <= s.len(),
            i <= n,
            forall|j: int| 0 <= j < i ==> s@[at + j] == p@[j],
        decreases n - i,
    {
        if s[at + i] != p[i] {
            assert(s@.subrange(at as int, at + n)[i as int] != part@[i as int]);
            return false;
        }
        i = i + 1;
    }
    assert(s@.subrange(at as int, at + n) =~= part@);
    true
}

/// Whether `part` occurs anywhere in `s`.
pub fn has_infix(s: &Vec<char>, part: &str) -> (r: bool)
    ensures
        r == has_part(s@, part@),
{
    let mut at: usize = 0;
    while at < s.len()
        invariant
            at <= s@.len(),
            forall|k: int| 0 <= k < at ==> !(#[trigger] occurs_at(s@, part@, k)),
        decreases s@.len() - at,
    {
        if part_is_at(s, part, at) {
            return true;
        }
        at = at + 1;
    }
    let r = part_is_at(s, part, at);
    r
}

/// Where `c` first stands at or after `from`, or the length of the text.
pub fn index_from(s: &Vec<char>, c: char, from: usize) -> (k: usize)
    requires
        from <= s@.len(),
    ensures
        from <= k <= s@.len(),
        k - from == first_index(s@.skip(from as int), c),
        k < s@.len() ==> s@[k as int] == c,
        forall|j: int| from <= j < k ==> s@[j] != c,
{
    let mut k: usize = from;
    while k < s.len() && s[k] != c
        invariant
            from <= k <= s@.len(),
            forall|j: int| from <= j < k ==> s@[j] != c,
        decreases s@.len() - k,
    {
        k = k + 1;
    }
    proof {
        lemma_first_index(s@.skip(from as int), c, k - from);
    }
    k
}

/// A position before which `c` does not stand, and at which it does or the text
/// ends, is the first index.
pub proof fn lemma_first_index(s: Seq<char>, c: char, k: int)
    requires
        0 <= k <= s.len(),
        forall|j: int| 0 <= j < k ==> s[j] != c,
        k < s.len() ==> s[k] == c,
    ensures
        first_index(s, c) == k,
    decreases s.len(),
{
    if s.len() > 0 && s[0] != c {
        lemma_first_index(s.drop_first(), c, k - 1);
    }
}

/// The first index lies within the text, and only the character there is `c`.
pub proof fn lemma_first_index_bounds(s: Seq<char>, c: char)
    ensures
        0 <= first_index(s, c) <= s.len(),
        first_index(s, c) < s.len() ==> s[first_index(s, c)] == c,
        forall|j: int| 0 <= j < first_index(s, c) ==> s[j] != c,
    decreases s.len(),
{
    if s.len() > 0 && s[0] != c {
        lemma_first_index_bounds(s.drop_first(), c);
        let k = first_index(s.drop_first(), c);
        assert forall|j: int| 0 <= j < 1 + k implies s[j] != c by {
            if j > 0 {
                assert(s.drop_first()[j - 1] == s[j]);
            }
        }
    }
}

/// The lines of a text.
pub fn lines(text: &str) -> (v: Vec<String>)
    ensures
        texts(v@) == lines_of(text@),
{
    let s = chars_of(text);
    let mut v: Vec<String> = Vec::new();
    let mut from: usize = 0;
    assert(s@.skip(0) =~= s@);
    assert(texts(v@) + lines_of(s@) =~= lines_of(s@));
    while from < s.len()
        invariant
            s@ == text@,
            from <= s@.len(),
            texts(v@) + lines_of(s@.skip(from as int)) == lines_of(text@),
        decreases s@.len() - from,
    {
        let ghost rest = s@.skip(from as int);
        let ghost done = texts(v@);
        let k: usize = index_from(&s, '\n', from);
        let to: usize = if k < s.len() && k > from && s[k - 1] == '\r' {
            k - 1
        } else {
            k
        };
        let line = string_of(&s, from, to);
        v.push(line);
        proof {
            assert(texts(v@) =~= done.push(line@));
            if k < s@.len() {
                assert(rest.take(k - from) =~= s@.subrange(from as int, k as int));
                assert(line@ =~= without_cr(rest.take(k - from)));
                assert(rest.skip(k - from + 1) =~= s@.skip(k + 1));
                assert(lines_of(rest) =~= seq![line@] + lines_of(s@.skip(k + 1)));
                assert(done.push(line@) + lines_of(s@.skip(k + 1)) =~= done + lines_of(rest));
            } else {
                assert(line@ =~= rest);
                assert(lines_of(rest) =~= seq![line@]);
                assert(done.push(line@) =~= done + lines_of(rest));
            }
        }
        if k < s.len() {
            from = k + 1;
        } else {
            from = k;
            assert(s@.skip(from as int).len() == 0);
            assert(lines_of(s@.skip(from as int)) =~= Seq::empty());
            assert(texts(v@) + Seq::<Seq<char>>::empty() =~= texts(v@));
        }
    }
    assert(s@.skip(from as int).len() == 0);
    assert(lines_of(s@.skip(from as int)) =~= Seq::empty());
    assert(texts(v@) + Seq::<Seq<char>>::empty() =~= texts(v@));
    v
}

/// The pieces of a text between the separators `c`.
pub fn split(text: &str, c: char) -> (v: Vec<String>)
    ensures
        texts(v@) == split_on(text@, c),
{
    let s = chars_of(text);
    let mut v: Vec<String> = Vec::new();
    let mut from: usize = 0;
    assert(s@.skip(0) =~= s@);
    assert(texts(v@) + split_on(s@, c) =~= split_on(s@, c));
    loop
        invariant
            s@ == text@,
            from <= s@.len(),
            texts(v@) + split_on(s@.skip(from as int), c) == split_on(text@, c),
        decreases s@.len() - from,
    {
        let ghost rest = s@.skip(from as int);
        let ghost done = texts(v@);
        let k: usize = index_from(&s, c, from);
        let piece = string_of(&s, from, k);
        v.push(piece);
        assert(texts(v@) =~= done.push(piece@));
        if k < s.len() {
            proof {
                assert(rest.take(k - from) =~= piece@);
                assert(rest.skip(k - from + 1) =~= s@.skip(k + 1));
                assert(done.push(piece@) + split_on(s@.skip(k + 1), c) =~= done + split_on(rest, c));
            }
            from = k + 1;
        } else {
            assert(piece@ =~= rest);
            assert(done.push(piece@) =~= done + split_on(rest, c));
            return v;
        }
    }
}

/// Trimming leaves nothing exactly of a blank text.
pub proof fn lemma_trimmed_blank(s: Seq<char>)
    ensures
        trimmed(s).len() == 0 <==> is_blank(s),
    decreases s.len(),
{
    lemma_trimmed_start_blank(s);
    let t = trimmed_start(s);
    if t.len() > 0 {
        lemma_trimmed_end_keeps_head(t);
    }
}

/// Nothing is left of a blank text once white space is taken from its front; what is
/// left of another begins with something else.
pub proof fn lemma_trimmed_start_blank(s: Seq<char>)
    ensures
        trimmed_start(s).len() == 0 <==> is_blank(s),
        trimmed_start(s).len() > 0 ==> !is_white_space(trimmed_start(s)[0]),
    decreases s.len(),
{
    if s.len() > 0 && is_white_space(s[0]) {
        lemma_trimmed_start_blank(s.drop_first());
        if is_blank(s) {
            assert forall|i: int| 0 <= i < s.len() - 1 implies is_white_space(
                #[trigger] s.drop_first()[i],
            ) by {
                assert(is_white_space(s[i + 1]));
            }
        }
        if is_blank(s.drop_first()) {
            assert forall|i: int| 0 <= i < s.len() implies is_white_space(#[trigger] s[i]) by {
                if i > 0 {
                    assert(s.drop_first()[i - 1] == s[i]);
                }
            }
        }
    }
}

/// What begins with no white space begins the same when it is trimmed.
pub proof fn lemma_trimmed_end_keeps_head(s: Seq<char>)
    requires
        s.len() > 0,
        !is_white_space(s[0]),
    ensures
        trimmed_end(s).len() > 0,
        trimmed_end(s)[0] == s[0],
    decreases s.len(),
{
    if is_white_space(s.last()) {
        lemma_trimmed_end_keeps_head(s.drop_last());
    }
}

/// Whether a text is blank.
pub fn blank(s: &str) -> (r: bool)
    ensures
        r == is_blank(s@),
{
    proof {
        lemma_trimmed_blank(s@);
    }
    s.trim().is_empty()
}

/// A copy of an optional string.
pub fn clone_opt(o: &Option<String>) -> (r: Option<String>)
    ensures
        r == *o,
{
    match o {
        Some(x) => Some(x.clone()),
        None => None,
    }
}

/// Whether a list holds a text.
pub fn list_has(v: &Vec<String>, wanted: &str) -> (r: bool)
    ensures
        r == texts(v@).contains(wanted@),
{
    let mut i: usize = 0;
    while i < v.len()
        invariant
            i <= v@.len(),
            forall|j: int| 0 <= j < i ==> v@[j]@ != wanted@,
        decreases v@.len() - i,
    {
        if same_text(v[i].as_str(), wanted) {
            assert(texts(v@)[i as int] == wanted@);
            return true;
        }
        i = i + 1;
    }
    proof {
        if texts(v@).contains(wanted@) {
            let j = choose|j: int| 0 <= j < texts(v@).len() && texts(v@)[j] == wanted@;
            assert(v@[j]@ == wanted@);
        }
    }
    false
}

/// A text between two others.
pub fn around(before: &str, middle: &str, after: &str) -> (r: String)
    ensures
        r@ == before@ + middle@ + after@,
{
    let mut r = before.to_owned();
    r.append(middle);
    r.append(after);
    r
}

/// Where `part` first stands in `s` at `from` or later; the length of `s` when
/// it does not.
pub open spec fn part_from(s: Seq<char>, part: Seq<char>, from: int) -> int
    decreases s.len() - from,
{
    if from >= s.len() {
        s.len() as int
    } else if occurs_at(s, part, from) {
        from
    } else {
        part_from(s, part, from + 1)
    }
}

/// What stands before the first `part` of `s`; all of `s` when there is none.
pub open spec fn before_part(s: Seq<char>, part: Seq<char>) -> Seq<char> {
    s.take(part_from(s, part, 0))
}

/// What stands before the first `part` of `s`.
pub fn before(s: &str, part: &str) -> (r: String)
    ensures
        r@ == before_part(s@, part@),
{
    let c = chars_of(s);
    let total: usize = c.len();
    let mut i: usize = 0;
    while i < total && !part_is_at(&c, part, i)
        invariant
            total == c@.len(),
            c@ == s@,
            i <= total,
            part_from(s@, part@, i as int) == part_from(s@, part@, 0),
        decreases total - i,
    {
        i = i + 1;
    }
    let r = string_of(&c, 0, i);
    assert(r@ =~= before_part(s@, part@));
    r
}

/// `s` without the line ends and spaces at its end.
pub open spec fn without_tail(s: Seq<char>) -> Seq<char>
    decreases s.len(),
{
    if s.len() > 0 && (s.last() == '\n' || s.last() == '\r' || s.last() == ' ') {
        without_tail(s.drop_last())
    } else {
        s
    }
}

/// `s` without the line ends and spaces at its end.
pub fn drop_tail(s: &str) -> (r: String)
    ensures
        r@ == without_tail(s@),
{
    let c = chars_of(s);
    let mut n: usize = c.len();
    assert(c@.take(n as int) =~= c@);
    while n > 0 && (c[n - 1] == '\n' || c[n - 1] == '\r' || c[n - 1] == ' ')
        invariant
            c@ == s@,
            n <= c@.len(),
            without_tail(c@.take(n as int)) == without_tail(s@),
        decreases n,
    {
        assert(c@.take(n as int).drop_last() =~= c@.take(n - 1));
        n = n - 1;
    }
    let r = string_of(&c, 0, n);
    assert(r@ =~= c@.take(n as int));
    r
}

/// `s` without the `c`s at its end.
pub open spec fn stripped_end(s: Seq<char>, c: char) -> Seq<char>
    decreases s.len(),
{
    if s.len() > 0 && s.last() == c {
        stripped_end(s.drop_last(), c)
    } else {
        s
    }
}

/// `s` without the `end`s at its end.
pub fn strip_end(s: &str, end: char) -> (r: String)
    ensures
        r@ == stripped_end(s@, end),
{
    let c = chars_of(s);
    let mut n: usize = c.len();
    assert(c@.take(n as int) =~= c@);
    while n > 0 && c[n - 1] == end
        invariant
            c@ == s@,
            n <= c@.len(),
            stripped_end(c@.take(n as int), end) == stripped_end(s@, end),
        decreases n,
    {
        assert(c@.take(n as int).drop_last() =~= c@.take(n - 1));
        n = n - 1;
    }
    let r = string_of(&c, 0, n);
    assert(r@ =~= c@.take(n as int));
    r
}

/// Why bytes encode no text, in the words of `Utf8Error`.
pub uninterp spec fn utf8_complaint(bytes: Seq<u8>) -> Seq<char>;

/// `std::str::from_utf8`: the text that the bytes encode, where they encode one,
/// and otherwise why they do not.
#[verifier::external_body]
pub(crate) fn utf8_text(bytes: &Vec<u8>) -> (r: Result<String, String>)
    ensures
        r is Ok <==> vstd::utf8::valid_utf8(bytes@),
        r matches Ok(s) ==> s@ == vstd::utf8::decode_utf8(bytes@),
        r matches Err(m) ==> m@ == utf8_complaint(bytes@),
{
    std::str::from_utf8(bytes).map(str::to_owned).map_err(|e| e.to_string())
}

/// The lines of two texts one behind the other, where the first ends with a line
/// feed.
pub proof fn lemma_lines_concat(a: Seq<char>, b: Seq<char>)
    requires
        a.len() == 0 || a.last() == '\n',
    ensures
        lines_of(a + b) == lines_of(a) + lines_of(b),
    decreases a.len(),
{
    if a.len() == 0 {
        assert(a + b =~= b);
        assert(lines_of(a) + lines_of(b) =~= lines_of(b));
    } else {
        lemma_first_index_bounds(a, '\n');
        let k = first_index(a, '\n');
        assert(k < a.len()) by {
            if k == a.len() {
                assert(a[a.len() - 1] != '\n');
            }
        }
        let s = a + b;
        assert(s[k] == a[k]);
        assert forall|j: int| 0 <= j < k implies s[j] != '\n' by {
            assert(s[j] == a[j]);
        }
        lemma_first_index(s, '\n', k);
        assert(s.take(k) =~= a.take(k));
        assert(s.skip(k + 1) =~= a.skip(k + 1) + b);
        lemma_lines_concat(a.skip(k + 1), b);
        let head = seq![without_cr(a.take(k))];
        assert(head + (lines_of(a.skip(k + 1)) + lines_of(b)) =~= (head + lines_of(a.skip(k + 1)))
            + lines_of(b));
    }
}

/// The only line of a text whose only line feed is its last character.
pub proof fn lemma_one_line(a: Seq<char>)
    requires
        forall|i: int| 0 <= i < a.len() ==> #[trigger] a[i] != '\n',
    ensures
        lines_of(a.push('\n')) == seq![without_cr(a)],
{
    let s = a.push('\n');
    lemma_first_index(s, '\n', a.len() as int);
    assert(s.take(a.len() as int) =~= a);
    assert(s.skip(a.len() as int + 1) =~= Seq::empty());
    assert(lines_of(s.skip(a.len() as int + 1)) =~= Seq::empty());
    assert(seq![without_cr(a)] + Seq::<Seq<char>>::empty() =~= seq![without_cr(a)]);
}

/// A character as `Debug` writes it: in quotes, with escapes.
pub uninterp spec fn quoted_char(c: char) -> Seq<char>;

/// A text as `Debug` writes it: in double quotes, with escapes.
pub uninterp spec fn quoted_text(s: Seq<char>) -> Seq<char>;

/// `Debug` of a `char`: the character in single quotes, escaped where it is a
/// quote, a backslash or not printable. A graphic ASCII character that is none
/// of these stands as it is.
#[verifier::external_body]
pub(crate) fn quote_char(c: char) -> (r: String)
    ensures
        r@ == quoted_char(c),
        0x20 <= c as int <= 0x7e && c != '\'' && c != '\\' ==> r@ == seq!['\'', c, '\''],
{
    format!("{c:?}")
}

/// `Debug` of a `str`: the text in double quotes, with escapes.
#[verifier::external_body]
pub(crate) fn quote_text(s: &str) -> (r: String)
    ensures
        r@ == quoted_text(s@),
{
    format!("{s:?}")
}

/// Whether a text comes before another, character by character.
pub open spec fn precedes(a: Seq<char>, b: Seq<char>) -> bool
    decreases a.len(),
{
    if b.len() == 0 {
        false
    } else if a.len() == 0 {
        true
    } else if a[0] != b[0] {
        (a[0] as int) < (b[0] as int)
    } else {
        precedes(a.drop_first(), b.drop_first())
    }
}

/// Whether a text comes before another.
pub fn comes_before(a: &str, b: &str) -> (r: bool)
    ensures
        r == precedes(a@, b@),
{
    let x = chars_of(a);
    let y = chars_of(b);
    let mut i: usize = 0;
    assert(a@.skip(0) =~= a@);
    assert(b@.skip(0) =~= b@);
    while i < x.len() && i < y.len() && x[i] == y[i]
        invariant
            x@ == a@,
            y@ == b@,
            i <= x@.len(),
            i <= y@.len(),
            precedes(a@.skip(i as int), b@.skip(i as int)) == precedes(a@, b@),
        decreases x@.len() - i,
    {
        assert(a@.skip(i as int).drop_first() =~= a@.skip(i + 1));
        assert(b@.skip(i as int).drop_first() =~= b@.skip(i + 1));
        i = i + 1;
    }
    if i >= y.len() {
        false
    } else if i >= x.len() {
        true
    } else {
        x[i] < y[i]
    }
}

/// No text comes before itself.
pub proof fn lemma_not_before_itself(a: Seq<char>)
    ensures
        !precedes(a, a),
    decreases a.len(),
{
    if a.len() > 0 {
        lemma_not_before_itself(a.drop_first());
    }
}

/// Of two texts one comes before the other, unless they are the same, and never
/// both.
pub proof fn lemma_one_before(a: Seq<char>, b: Seq<char>)
    ensures
        a != b ==> precedes(a, b) || precedes(b, a),
        !(precedes(a, b) && precedes(b, a)),
    decreases a.len(),
{
    if a.len() > 0 && b.len() > 0 && a[0] == b[0] {
        lemma_one_before(a.drop_first(), b.drop_first());
        if a.drop_first() == b.drop_first() {
            assert forall|i: int| 0 <= i < a.len() implies a[i] == b[i] by {
                if i > 0 {
                    assert(a.drop_first()[i - 1] == a[i]);
                    assert(b.drop_first()[i - 1] == b[i]);
                }
            }
            assert(a =~= b);
        }
    } else if a.len() == 0 && b.len() == 0 {
        assert(a =~= b);
    }
}

/// What comes before a text comes before all that the text comes before.
pub proof fn lemma_before_transitive(a: Seq<char>, b: Seq<char>, c: Seq<char>)
    requires
        precedes(a, b),
        precedes(b, c),
    ensures
        precedes(a, c),
    decreases a.len(),
{
    if a.len() > 0 && a[0] == b[0] && b[0] == c[0] {
        lemma_before_transitive(a.drop_first(), b.drop_first(), c.drop_first());
    }
}

/// White space in front of a text that begins with something else goes, and nothing more.
pub proof fn lemma_front_margin(a: Seq<char>, s: Seq<char>)
    requires
        is_blank(a),
        s.len() > 0,
        !is_white_space(s[0]),
    ensures
        trimmed_start(a + s) == s,
    decreases a.len(),
{
    if a.len() == 0 {
        assert(a + s =~= s);
    } else {
        assert(is_white_space(a[0]));
        assert forall|i: int| 0 <= i < a.drop_first().len() implies is_white_space(
            #[trigger] a.drop_first()[i],
        ) by {
            assert(a.drop_first()[i] == a[i + 1]);
        }
        lemma_front_margin(a.drop_first(), s);
        assert((a + s).drop_first() =~= a.drop_first() + s);
    }
}

/// White space behind a text that ends with something else goes, and nothing more.
pub proof fn lemma_back_margin(s: Seq<char>, b: Seq<char>)
    requires
        is_blank(b),
        s.len() > 0,
        !is_white_space(s.last()),
    ensures
        trimmed_end(s + b) == s,
    decreases b.len(),
{
    if b.len() == 0 {
        assert(s + b =~= s);
    } else {
        assert(is_white_space(b[b.len() - 1]));
        assert forall|i: int| 0 <= i < b.drop_last().len() implies is_white_space(
            #[trigger] b.drop_last()[i],
        ) by {
            assert(b.drop_last()[i] == b[i]);
        }
        lemma_back_margin(s, b.drop_last());
        assert((s + b).drop_last() =~= s + b.drop_last());
        assert((s + b).last() == b.last());
    }
}

/// Trimming takes the white space around a text and leaves the text.
pub proof fn margins_are_trimmed(a: Seq<char>, s: Seq<char>, b: Seq<char>)
    requires
        is_blank(a),
        is_blank(b),
        s.len() > 0,
        !is_white_space(s[0]),
        !is_white_space(s.last()),
    ensures
        trimmed(a + s + b) == s,
{
    assert(a + s + b =~= a + (s + b));
    lemma_front_margin(a, s + b);
    lemma_back_margin(s, b);
}

/// A text without a separator is one piece, and a separator behind such a text parts it
/// from the pieces of the rest.
pub proof fn a_separator_parts_the_pieces(a: Seq<char>, c: char, b: Seq<char>)
    requires
        forall|i: int| 0 <= i < a.len() ==> #[trigger] a[i] != c,
    ensures
        split_on(a, c) == seq![a],
        split_on(a.push(c) + b, c) == seq![a] + split_on(b, c),
{
    lemma_first_index(a, c, a.len() as int);
    let s = a.push(c) + b;
    assert forall|j: int| 0 <= j < a.len() implies s[j] != c by {
        assert(s[j] == a[j]);
    }
    assert(s[a.len() as int] == c);
    lemma_first_index(s, c, a.len() as int);
    assert(s.take(a.len() as int) =~= a);
    assert(s.skip(a.len() as int + 1) =~= b);
}

/// A line ends at a line feed, with a carriage return before it or without.
pub proof fn a_line_feed_ends_a_line(a: Seq<char>, b: Seq<char>)
    requires
        forall|i: int| 0 <= i < a.len() ==> #[trigger] a[i] != '\n',
        a.len() > 0 ==> a.last() != '\r',
    ensures
        lines_of(a.push('\n') + b) == seq![a] + lines_of(b),
        lines_of(a.push('\r').push('\n') + b) == seq![a] + lines_of(b),
        a.len() > 0 ==> lines_of(a) == seq![a],
        lines_of(Seq::<char>::empty()).len() == 0,
{
    let s = a.push('\n');
    lemma_one_line(a);
    lemma_lines_concat(s, b);
    let r = a.push('\r');
    assert forall|i: int| 0 <= i < r.len() implies #[trigger] r[i] != '\n' by {
        if i < a.len() {
            assert(r[i] == a[i]);
        }
    }
    lemma_one_line(r);
    lemma_lines_concat(r.push('\n'), b);
    assert(r.drop_last() =~= a);
    lemma_first_index(a, '\n', a.len() as int);
}

/// What stands before a part is what stands before the first of them, and all where
/// there is none.
pub proof fn the_first_part_ends_what_is_before(s: Seq<char>, part: Seq<char>, at: int)
    requires
        0 <= at <= s.len(),
        at == s.len() || occurs_at(s, part, at),
        forall|k: int| 0 <= k < at ==> !(#[trigger] occurs_at(s, part, k)),
    ensures
        before_part(s, part) == s.take(at),
{
    lemma_part_from(s, part, 0, at);
}

proof fn lemma_part_from(s: Seq<char>, part: Seq<char>, from: int, at: int)
    requires
        0 <= from <= at <= s.len(),
        at == s.len() || occurs_at(s, part, at),
        forall|k: int| 0 <= k < at ==> !(#[trigger] occurs_at(s, part, k)),
    ensures
        part_from(s, part, from) == at,
    decreases at - from,
{
    if from < at {
        assert(!occurs_at(s, part, from));
        lemma_part_from(s, part, from + 1, at);
    }
}

/// What is left of a text once its end is stripped ends with something else, and only
/// what was to be stripped is gone.
pub proof fn only_the_end_is_stripped(s: Seq<char>, c: char)
    ensures
        stripped_end(s, c).len() > 0 ==> stripped_end(s, c).last() != c,
        stripped_end(s, c).is_prefix_of(s),
        forall|i: int| stripped_end(s, c).len() <= i < s.len() ==> #[trigger] s[i] == c,
    decreases s.len(),
{
    if s.len() > 0 && s.last() == c {
        only_the_end_is_stripped(s.drop_last(), c);
        assert forall|i: int| stripped_end(s, c).len() <= i < s.len() implies #[trigger] s[i] == c by {
            if i < s.len() - 1 {
                assert(s.drop_last()[i] == s[i]);
            }
        }
    }
}

/// What is left of a text without its tail ends with no line end and no space, and only
/// such went.
pub proof fn only_the_tail_goes(s: Seq<char>)
    ensures
        without_tail(s).len() > 0 ==> without_tail(s).last() != '\n' && without_tail(s).last()
            != '\r' && without_tail(s).last() != ' ',
        without_tail(s).is_prefix_of(s),
        forall|i: int|
            without_tail(s).len() <= i < s.len() ==> (#[trigger] s[i] == '\n' || s[i] == '\r' || s[i]
                == ' '),
    decreases s.len(),
{
    if s.len() > 0 && (s.last() == '\n' || s.last() == '\r' || s.last() == ' ') {
        only_the_tail_goes(s.drop_last());
        assert forall|i: int| without_tail(s).len() <= i < s.len() implies (#[trigger] s[i] == '\n'
            || s[i] == '\r' || s[i] == ' ') by {
            if i < s.len() - 1 {
                assert(s.drop_last()[i] == s[i]);
            }
        }
    }
}

/// A text comes before another where it is a shorter beginning of it, or where its
/// character is the smaller one at the first place at which they differ.
pub proof fn the_first_difference_decides(a: Seq<char>, b: Seq<char>, k: int)
    requires
        0 <= k <= a.len(),
        k < b.len(),
        forall|i: int| 0 <= i < k ==> #[trigger] a[i] == b[i],
        k < a.len() ==> a[k] != b[k],
    ensures
        precedes(a, b) <==> k == a.len() || (a[k] as int) < (b[k] as int),
    decreases k,
{
    if k > 0 {
        assert(a[0] == b[0]);
        assert forall|i: int| 0 <= i < k - 1 implies #[trigger] a.drop_first()[i]
            == b.drop_first()[i] by {
            assert(a[i + 1] == b[i + 1]);
        }
        the_first_difference_decides(a.drop_first(), b.drop_first(), k - 1);
    }
}

/// White space is the space, the tabulators and line ends of ASCII, and Unicode's own
/// spaces; a text is blank where it holds nothing else.
pub proof fn white_space_is_these(c: char, s: Seq<char>)
    ensures
        is_white_space(c) <==> (c == ' ' || '\t' <= c <= '\r' || c == '\u{85}' || c == '\u{a0}' || c
            == '\u{1680}' || '\u{2000}' <= c <= '\u{200a}' || c == '\u{2028}' || c == '\u{2029}' || c
            == '\u{202f}' || c == '\u{205f}' || c == '\u{3000}'),
        is_blank(Seq::<char>::empty()),
        is_blank(s.push(c)) <==> is_blank(s) && is_white_space(c),
{
    let t = s.push(c);
    if is_blank(t) {
        assert(is_white_space(t[s.len() as int]));
        assert forall|i: int| 0 <= i < s.len() implies is_white_space(#[trigger] s[i]) by {
            assert(t[i] == s[i]);
        }
    }
}

/// Digits and letters of ASCII are these, and a capital letter of ASCII has its small one;
/// nothing else changes in lower case.
pub proof fn letters_have_a_lower_case(c: char, s: Seq<char>)
    ensures
        is_digit(c) <==> '0' <= c <= '9',
        (c as int) < 128 ==> (is_word_char(c) <==> '0' <= c <= '9' || 'a' <= c <= 'z' || 'A' <= c
            <= 'Z'),
        (c as int) >= 128 && !is_white_space(c) ==> is_word_char(c) == unicode_alphanumeric(c),
        is_white_space(c) ==> !is_word_char(c),
        ascii_lowercase(s).len() == s.len(),
        forall|i: int|
            0 <= i < s.len() ==> (#[trigger] ascii_lowercase(s)[i]) as int == (if 'A' <= s[i]
                <= 'Z' {
                s[i] as int + 32
            } else {
                s[i] as int
            }),
{
}

/// Two texts are the same whatever the case of ASCII where each character is, in order.
pub proof fn texts_are_compared_character_by_character(a: Seq<char>, b: Seq<char>)
    ensures
        same_ignoring_ascii_case(a, b) <==> a.len() == b.len() && forall|i: int|
            0 <= i < a.len() ==> #[trigger] ascii_lowercase(a)[i] == ascii_lowercase(b)[i],
        same_ignoring_ascii_case(a, a),
{
    if a.len() == b.len() && (forall|i: int|
        0 <= i < a.len() ==> #[trigger] ascii_lowercase(a)[i] == ascii_lowercase(b)[i]) {
        assert(ascii_lowercase(a) =~= ascii_lowercase(b));
    }
    if same_ignoring_ascii_case(a, b) {
        assert(ascii_lowercase(a).len() == ascii_lowercase(b).len());
    }
}

/// A part is found where it stands, whatever is before and behind it.
pub proof fn a_part_is_found_where_it_stands(a: Seq<char>, part: Seq<char>, b: Seq<char>, at: int)
    ensures
        occurs_at(a + part + b, part, a.len() as int),
        has_part(a + part + b, part),
        occurs_at(a, part, at) ==> 0 <= at && at + part.len() <= a.len() && forall|i: int|
            0 <= i < part.len() ==> #[trigger] part[i] == a[at + i],
{
    let s = a + part + b;
    assert(s.subrange(a.len() as int, a.len() as int + part.len()) =~= part);
    if occurs_at(a, part, at) {
        assert forall|i: int| 0 <= i < part.len() implies #[trigger] part[i] == a[at + i] by {
            assert(a.subrange(at, at + part.len())[i] == a[at + i]);
        }
    }
}

/// What strings hold is what they hold, one by one.
pub proof fn strings_hold_their_texts(v: Seq<String>, s: String)
    ensures
        texts(v).len() == v.len(),
        forall|i: int| 0 <= i < v.len() ==> #[trigger] texts(v)[i] == v[i]@,
        opt_text(Some(s)) == Some(s@),
        opt_text(None) is None,
        vstd::utf8::is_ascii_chars(s@) ==> lowered(s@) == ascii_lowercase(s@),
        !vstd::utf8::is_ascii_chars(s@) ==> lowered(s@) == unicode_lowercase(s@),
{
}

} // verus!
