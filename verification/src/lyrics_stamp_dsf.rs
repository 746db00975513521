//! Putting the key of timed lyrics in step in the ID3v2 tag that a DSF file keeps
//! behind a pointer in its header.

use vstd::prelude::*;

use crate::lyrics_tags;
use crate::lyrics_tags::synced_lyrics_keys;
use crate::text;
use crate::text::list_has;

verus! {

/// An ID3v2 tag.
#[verifier::external_type_specification]
#[verifier::external_body]
pub struct ExTag(id3::Tag);

/// The extended texts of a tag, in order: of each, whether its frame is a `TXXX`
/// frame, its description and its value.
pub uninterp spec fn extended_texts_of(t: id3::Tag) -> Seq<(bool, Seq<char>, Seq<char>)>;

/// The descriptions of extended texts.
pub open spec fn descriptions_of(items: Seq<(bool, Seq<char>, Seq<char>)>) -> Seq<Seq<char>> {
    items.map_values(|p: (bool, Seq<char>, Seq<char>)| p.1)
}

/// Whether an extended text stands in a `TXXX` frame with this description.
pub open spec fn is_under(p: (bool, Seq<char>, Seq<char>), description: Seq<char>) -> bool {
    p.0 && p.1 == description
}

/// The extended texts that do not stand in a `TXXX` frame with this description.
pub open spec fn without_text(
    items: Seq<(bool, Seq<char>, Seq<char>)>,
    description: Seq<char>,
) -> Seq<(bool, Seq<char>, Seq<char>)> {
    items.filter(|p: (bool, Seq<char>, Seq<char>)| !is_under(p, description))
}

/// Whether an extended text stands in a `TXXX` frame with this description.
pub open spec fn has_text(
    items: Seq<(bool, Seq<char>, Seq<char>)>,
    description: Seq<char>,
) -> bool {
    exists|i: int| 0 <= i < items.len() && is_under(#[trigger] items[i], description)
}

/// `id3::Tag::extended_texts`: the descriptions of the extended texts, in order.
#[verifier::external_body]
fn tag_descriptions(t: &id3::Tag) -> (v: Vec<String>)
    ensures
        text::texts(v@) == descriptions_of(extended_texts_of(*t)),
{
    t.extended_texts().map(|x| x.description.clone()).collect()
}

/// `id3::TagLike::remove_extended_text`, by description: every `TXXX` frame with
/// the description goes, and the other extended texts stay in their order. It also
/// drops a `TXXX` frame that holds no extended text, of which nothing is said here.
#[verifier::external_body]
fn tag_remove(t: &mut id3::Tag, description: &str)
    ensures
        extended_texts_of(*final(t)) == without_text(extended_texts_of(*old(t)), description@),
{
    id3::TagLike::remove_extended_text(t, Some(description), None)
}

/// `id3::TagLike::add_frame`, of an extended text: where no extended text stands in a
/// `TXXX` frame with its description, it goes to the end and the others stay. Which
/// frame goes otherwise is not said.
#[verifier::external_body]
fn tag_add(t: &mut id3::Tag, description: String, value: String)
    ensures
        !has_text(extended_texts_of(*old(t)), description@) ==> extended_texts_of(*final(t))
            == extended_texts_of(*old(t)).push((true, description@, value@)),
{
    id3::TagLike::add_frame(t, id3::frame::ExtendedText { description, value });
}

/// Whether a description is one of the first `n` spellings of the key of timed
/// lyrics.
pub open spec fn is_spelling(description: Seq<char>, n: int) -> bool {
    exists|j: int| 0 <= j < n && #[trigger] lyrics_tags::synced_keys()[j] == description
}

/// What is kept once the first `n` spellings of the key have been dealt with.
pub open spec fn kept(n: int) -> spec_fn((bool, Seq<char>, Seq<char>)) -> bool {
    |p: (bool, Seq<char>, Seq<char>)| !(p.0 && is_spelling(p.1, n))
}

/// What a stamp makes of a tag: every `TXXX` frame under a spelling of the key
/// goes, and the canonical one is written where there is something to write.
pub open spec fn stamped_tag(
    items: Seq<(bool, Seq<char>, Seq<char>)>,
    content: Option<Seq<char>>,
) -> Seq<(bool, Seq<char>, Seq<char>)> {
    match content {
        Some(c) => items.filter(kept(4)).push((true, lyrics_tags::synced_keys()[0], c)),
        None => items.filter(kept(4)),
    }
}

/// Whether a spelling of the key is among the descriptions.
pub open spec fn carries_stamp(items: Seq<(bool, Seq<char>, Seq<char>)>, n: int) -> bool {
    exists|i: int| 0 <= i < items.len() && is_spelling((#[trigger] items[i]).1, n)
}

proof fn lemma_filter_twice<A>(s: Seq<A>, f: spec_fn(A) -> bool, g: spec_fn(A) -> bool, h: spec_fn(A) -> bool)
    requires
        forall|x: A| #[trigger] h(x) == (f(x) && g(x)),
    ensures
        s.filter(f).filter(g) == s.filter(h),
    decreases s.len(),
{
    reveal(Seq::filter);
    if s.len() > 0 {
        let rest = s.drop_last();
        lemma_filter_twice(rest, f, g, h);
        assert(h(s.last()) == (f(s.last()) && g(s.last())));
        if f(s.last()) {
            assert(s.filter(f) =~= rest.filter(f).push(s.last()));
            assert(s.filter(f).drop_last() =~= rest.filter(f));
        }
    }
}

proof fn lemma_filter_all<A>(s: Seq<A>, f: spec_fn(A) -> bool)
    requires
        forall|i: int| 0 <= i < s.len() ==> f(#[trigger] s[i]),
    ensures
        s.filter(f) == s,
    decreases s.len(),
{
    reveal(Seq::filter);
    if s.len() > 0 {
        assert forall|i: int| 0 <= i < s.drop_last().len() implies f(#[trigger] s.drop_last()[i]) by {
            assert(s.drop_last()[i] == s[i]);
        }
        lemma_filter_all(s.drop_last(), f);
        assert(f(s[s.len() - 1]));
        assert(s =~= s.drop_last().push(s.last()));
    }
}

/// A description stands among those that are kept exactly if it stood there
/// before, provided that it is none of the spellings dealt with.
proof fn lemma_later_description(items: Seq<(bool, Seq<char>, Seq<char>)>, n: int, d: Seq<char>)
    requires
        !is_spelling(d, n),
    ensures
        descriptions_of(items.filter(kept(n))).contains(d) <==> exists|i: int|
            0 <= i < items.len() && (#[trigger] items[i]).1 == d,
    decreases items.len(),
{
    reveal(Seq::filter);
    let now = items.filter(kept(n));
    if items.len() > 0 {
        let rest = items.drop_last();
        lemma_later_description(rest, n, d);
        let x = items.last();
        let then = rest.filter(kept(n));
        if exists|i: int| 0 <= i < items.len() && (#[trigger] items[i]).1 == d {
            let i = choose|i: int| 0 <= i < items.len() && (#[trigger] items[i]).1 == d;
            if i < rest.len() {
                assert(rest[i].1 == d);
                let k = choose|k: int|
                    0 <= k < descriptions_of(then).len() && descriptions_of(then)[k] == d;
                assert(now[k] == then[k]);
                assert(descriptions_of(now)[k] == d);
            } else {
                assert(kept(n)(x));
                assert(now =~= then.push(x));
                assert(descriptions_of(now)[then.len() as int] == d);
            }
        }
        if descriptions_of(now).contains(d) {
            let k = choose|k: int| 0 <= k < descriptions_of(now).len() && descriptions_of(now)[k] == d;
            if k < then.len() {
                assert(now[k] == then[k]);
                assert(descriptions_of(then)[k] == d);
                let i = choose|i: int| 0 <= i < rest.len() && (#[trigger] rest[i]).1 == d;
                assert(items[i].1 == d);
            } else {
                assert(now[k] == x);
                assert(items[items.len() - 1].1 == d);
            }
        }
    } else {
        assert(now =~= Seq::empty());
    }
}

proof fn lemma_spellings_differ(j: int)
    requires
        0 <= j < 4,
    ensures
        !is_spelling(lyrics_tags::synced_keys()[j], j),
{
    reveal_strlit("SYNCEDLYRICS");
    reveal_strlit("SYNCED LYRICS");
    reveal_strlit("SYNCED_LYRICS");
    reveal_strlit("LYRICS_SYNCED");
    assert("SYNCEDLYRICS"@[6] == 'L' && "SYNCED LYRICS"@[6] == ' ' && "SYNCED_LYRICS"@[6] == '_'
        && "LYRICS_SYNCED"@[0] == 'L' && "SYNCEDLYRICS"@[0] == 'S' && "SYNCED LYRICS"@[0] == 'S'
        && "SYNCED_LYRICS"@[0] == 'S');
}

/// Stamp the tag of a DSF file. Answers whether the tag changed, which is whether
/// the file has to be written.
pub fn restamp_dsf(t: &mut id3::Tag, content: Option<&str>) -> (changed: bool)
    ensures
        extended_texts_of(*final(t)) == stamped_tag(
            extended_texts_of(*old(t)),
            match content {
                Some(s) => Some(s@),
                None => None,
            },
        ),
        changed == (content is Some || carries_stamp(extended_texts_of(*old(t)), 4)),
{
    let keys = synced_lyrics_keys();
    let ghost first = extended_texts_of(*t);
    let ghost names = lyrics_tags::synced_keys();
    let mut changed = false;
    let mut i: usize = 0;
    proof {
        lemma_filter_all(first, kept(0));
    }
    while i < keys.len()
        invariant
            i <= keys@.len(),
            keys@.len() == 4,
            names == lyrics_tags::synced_keys(),
            lyrics_tags::str_texts(keys@) == names,
            extended_texts_of(*t) == first.filter(kept(i as int)),
            changed == carries_stamp(first, i as int),
        decreases keys@.len() - i,
    {
        let ghost before = extended_texts_of(*t);
        let ghost key = names[i as int];
        let ghost g = |p: (bool, Seq<char>, Seq<char>)| !is_under(p, key);
        let descriptions = tag_descriptions(t);
        let present = list_has(&descriptions, keys[i]);
        proof {
            assert(lyrics_tags::str_texts(keys@)[i as int] == keys@[i as int]@);
            lemma_spellings_differ(i as int);
            lemma_later_description(first, i as int, key);
            let f = kept(i as int);
            let h = kept(i + 1);
            assert forall|p: (bool, Seq<char>, Seq<char>)| #[trigger] h(p) == (f(p) && g(p)) by {
                if is_spelling(p.1, i + 1) && !is_spelling(p.1, i as int) {
                    let j = choose|j: int|
                        0 <= j < i + 1 && #[trigger] lyrics_tags::synced_keys()[j] == p.1;
                    assert(j == i);
                }
                if p.1 == key {
                    assert(lyrics_tags::synced_keys()[i as int] == p.1);
                }
            }
            lemma_filter_twice(first, f, g, h);
            assert(without_text(before, key) == before.filter(g));
            assert(present == exists|k: int| 0 <= k < first.len() && (#[trigger] first[k]).1 == key);
            assert(carries_stamp(first, i + 1) == (carries_stamp(first, i as int) || present)) by {
                if carries_stamp(first, i + 1) {
                    let k = choose|k: int|
                        0 <= k < first.len() && is_spelling((#[trigger] first[k]).1, i + 1);
                    let j = choose|j: int|
                        0 <= j < i + 1 && #[trigger] lyrics_tags::synced_keys()[j] == first[k].1;
                    if j < i {
                        assert(is_spelling(first[k].1, i as int));
                    }
                }
                if carries_stamp(first, i as int) {
                    let k = choose|k: int|
                        0 <= k < first.len() && is_spelling((#[trigger] first[k]).1, i as int);
                    assert(is_spelling(first[k].1, i + 1));
                }
                if present {
                    let k = choose|k: int| 0 <= k < first.len() && (#[trigger] first[k]).1 == key;
                    assert(lyrics_tags::synced_keys()[i as int] == first[k].1);
                    assert(is_spelling(first[k].1, i + 1));
                }
            }
            if !present {
                assert forall|k: int| 0 <= k < before.len() implies g(#[trigger] before[k]) by {
                    assert(descriptions_of(before)[k] == before[k].1);
                }
                lemma_filter_all(before, g);
            }
        }
        if present {
            tag_remove(t, keys[i]);
            changed = true;
        }
        i = i + 1;
    }
    match content {
        Some(s) => {
            let ghost bare = extended_texts_of(*t);
            proof {
                assert(lyrics_tags::str_texts(keys@)[0] == keys@[0]@);
                assert forall|k: int| 0 <= k < bare.len() implies !is_under(
                    #[trigger] bare[k],
                    names[0],
                ) by {
                    first.lemma_filter_pred(kept(4), k);
                    if bare[k].1 == names[0] {
                        assert(lyrics_tags::synced_keys()[0] == bare[k].1);
                        assert(is_spelling(bare[k].1, 4));
                    }
                }
            }
            tag_add(t, keys[0].to_owned(), s.to_owned());
            changed = true;
        },
        None => {},
    }
    changed
}

/// After a stamp no `TXXX` frame stands under a spelling of the key but the one
/// that was written, if one was.
pub proof fn a_dsf_stamp_is_the_only_one(
    before: Seq<(bool, Seq<char>, Seq<char>)>,
    content: Option<Seq<char>>,
    i: int,
)
    requires
        0 <= i < stamped_tag(before, content).len(),
        stamped_tag(before, content)[i].0,
        is_spelling(stamped_tag(before, content)[i].1, 4),
    ensures
        content is Some,
        i == stamped_tag(before, content).len() - 1,
        stamped_tag(before, content)[i].1 == lyrics_tags::synced_keys()[0],
        stamped_tag(before, content)[i].2 == content->0,
{
    if i < before.filter(kept(4)).len() {
        before.lemma_filter_pred(kept(4), i);
        assert(kept(4)(before.filter(kept(4))[i]));
    }
}

/// A stamp of a DSF file leaves every extended text that stands in no `TXXX` frame under a
/// spelling of the key.
pub proof fn a_dsf_stamp_leaves_the_rest(
    items: Seq<(bool, Seq<char>, Seq<char>)>,
    content: Option<Seq<char>>,
    p: (bool, Seq<char>, Seq<char>),
)
    requires
        items.contains(p),
        !p.0 || (p.1 != "SYNCEDLYRICS"@ && p.1 != "SYNCED LYRICS"@ && p.1 != "SYNCED_LYRICS"@ && p.1
            != "LYRICS_SYNCED"@),
    ensures
        stamped_tag(items, content).contains(p),
        content matches Some(c) ==> stamped_tag(items, content).last() == (
            true,
            "SYNCEDLYRICS"@,
            c,
        ),
{
    broadcast use vstd::seq_lib::group_filter_ensures;

    let names = lyrics_tags::synced_keys();
    let k = choose|k: int| 0 <= k < items.len() && items[k] == p;
    if is_spelling(p.1, 4) {
        let j = choose|j: int| 0 <= j < 4 && #[trigger] names[j] == p.1;
        assert(j == 0 || j == 1 || j == 2 || j == 3);
    }
    assert(kept(4)(items[k]));
    let a = items.filter(kept(4));
    assert(a.contains(items[k]));
    let i = choose|i: int| 0 <= i < a.len() && a[i] == p;
    assert(stamped_tag(items, content)[i] == p);
}

/// A file carries a stamp where one of its texts goes by one of a stamp's four names.
pub proof fn a_stamp_is_known_by_its_name(items: Seq<(bool, Seq<char>, Seq<char>)>)
    ensures
        carries_stamp(items, 4) <==> exists|i: int, k: int|
            0 <= i < items.len() && 0 <= k < 4 && (#[trigger] items[i]).1
                == #[trigger] lyrics_tags::synced_keys()[k],
{
}

} // verus!
