//! Putting the key of timed lyrics in step with what was just written: every
//! spelling of it goes, and the canonical one is written where there is
//! something to write.

use vstd::prelude::*;

use lofty::id3::v2::Id3v2Tag;
use lofty::ogg::tag::VorbisComments;

use crate::lyrics_tags;
use crate::lyrics_tags::{id3v2_insert, id3v2_remove, synced_lyrics_keys, vorbis_insert, vorbis_remove};
use crate::text;

verus! {

/// Whether a key is a spelling of the key of timed lyrics, ASCII case aside,
/// among the first `n` of them.
pub open spec fn spells_synced(key: Seq<char>, n: int) -> bool {
    exists|j: int|
        0 <= j < n && text::same_ignoring_ascii_case(key, #[trigger] lyrics_tags::synced_keys()[j])
}

/// The pairs under no spelling of the key of timed lyrics.
pub open spec fn without_synced(items: Seq<(Seq<char>, Seq<char>)>) -> Seq<(Seq<char>, Seq<char>)> {
    items.filter(|p: (Seq<char>, Seq<char>)| !spells_synced(p.0, 4))
}

/// What a stamp makes of a Vorbis tag, but for the order.
pub open spec fn stamped_comments(
    items: Seq<(Seq<char>, Seq<char>)>,
    content: Option<Seq<char>>,
) -> Seq<(Seq<char>, Seq<char>)> {
    match content {
        Some(c) => without_synced(items).push((lyrics_tags::synced_keys()[0], c)),
        None => without_synced(items),
    }
}

/// Filtering a sequence and filtering its elements come to the same.
proof fn lemma_filter_multiset<A>(s: Seq<A>, f: spec_fn(A) -> bool)
    ensures
        s.filter(f).to_multiset() == s.to_multiset().filter(f),
    decreases s.len(),
{
    broadcast use vstd::multiset::group_multiset_axioms;
    broadcast use vstd::seq_lib::group_to_multiset_ensures;

    reveal(Seq::filter);
    if s.len() == 0 {
        assert(s.filter(f) =~= s);
        assert(s.filter(f).to_multiset() =~= s.to_multiset().filter(f)) by {
            assert forall|x: A| #[trigger] s.to_multiset().count(x) == 0 by {
                assert(!s.contains(x));
            }
        }
    } else {
        let rest = s.drop_last();
        let x = s.last();
        lemma_filter_multiset(rest, f);
        assert(s =~= rest.push(x));
        vstd::seq_lib::to_multiset_build(rest, x);
        if f(x) {
            vstd::seq_lib::to_multiset_build(rest.filter(f), x);
            assert(s.filter(f) =~= rest.filter(f).push(x));
        }
        assert(s.filter(f).to_multiset() =~= s.to_multiset().filter(f));
    }
}

/// The canonical key is one that a Vorbis tag admits.
proof fn lemma_canonical_key()
    ensures
        lyrics_tags::vorbis_key(lyrics_tags::synced_keys()[0]),
{
    reveal_strlit("SYNCEDLYRICS");
    let k = "SYNCEDLYRICS"@;
    assert(k =~= seq!['S', 'Y', 'N', 'C', 'E', 'D', 'L', 'Y', 'R', 'I', 'C', 'S']);
    assert forall|i: int| 0 <= i < k.len() implies 0x20 <= (#[trigger] k[i]) as int <= 0x7D && k[i]
        != '=' by {}
}

/// Stamp a Vorbis tag. Answers whether the tag changed, which is whether its
/// file has to be written.
pub fn restamp_vorbis(c: &mut VorbisComments, content: Option<&str>) -> (changed: bool)
    ensures
        lyrics_tags::comments_of(*final(c)).to_multiset() == stamped_comments(
            lyrics_tags::comments_of(*old(c)),
            match content {
                Some(s) => Some(s@),
                None => None,
            },
        ).to_multiset(),
        changed == (content is Some || without_synced(lyrics_tags::comments_of(*old(c))).len()
            < lyrics_tags::comments_of(*old(c)).len()),
{
    broadcast use vstd::multiset::group_multiset_axioms;

    let keys = synced_lyrics_keys();
    let ghost first = lyrics_tags::comments_of(*c);
    let ghost names = lyrics_tags::synced_keys();
    let mut changed = false;
    let mut i: usize = 0;
    proof {
        let none = |p: (Seq<char>, Seq<char>)| !spells_synced(p.0, 0);
        assert(first.to_multiset() =~= first.to_multiset().filter(none));
    }
    while i < keys.len()
        invariant
            i <= keys@.len(),
            keys@.len() == 4,
            names == lyrics_tags::synced_keys(),
            lyrics_tags::str_texts(keys@) == names,
            lyrics_tags::comments_of(*c).to_multiset() == first.to_multiset().filter(
                |p: (Seq<char>, Seq<char>)| !spells_synced(p.0, i as int),
            ),
            lyrics_tags::comments_of(*c).len() <= first.len(),
            changed == (lyrics_tags::comments_of(*c).len() < first.len()),
        decreases keys@.len() - i,
    {
        let ghost before = lyrics_tags::comments_of(*c);
        let ghost key = names[i as int];
        assert(lyrics_tags::str_texts(keys@)[i as int] == keys@[i as int]@);
        let gone: usize = vorbis_remove(c, keys[i]);
        proof {
            let after = lyrics_tags::comments_of(*c);
            let f = |p: (Seq<char>, Seq<char>)| !spells_synced(p.0, i as int);
            let g = |p: (Seq<char>, Seq<char>)| !text::same_ignoring_ascii_case(p.0, key);
            let h = |p: (Seq<char>, Seq<char>)| !spells_synced(p.0, i + 1);
            lemma_filter_multiset(before, g);
            before.to_multiset_ensures();
            after.to_multiset_ensures();
            lyrics_tags::without_key(before, key).to_multiset_ensures();
            assert(lyrics_tags::without_key(before, key) == before.filter(g));
            assert forall|p: (Seq<char>, Seq<char>)| #[trigger] h(p) == (f(p) && g(p)) by {
                if spells_synced(p.0, i + 1) && !spells_synced(p.0, i as int) {
                    let j = choose|j: int|
                        0 <= j < i + 1 && text::same_ignoring_ascii_case(
                            p.0,
                            #[trigger] lyrics_tags::synced_keys()[j],
                        );
                    assert(j == i);
                }
                if !g(p) {
                    assert(text::same_ignoring_ascii_case(
                        p.0,
                        lyrics_tags::synced_keys()[i as int],
                    ));
                }
            }
            assert(after.to_multiset() =~= first.to_multiset().filter(h)) by {
                assert forall|p: (Seq<char>, Seq<char>)| #[trigger]
                    after.to_multiset().count(p) == first.to_multiset().filter(h).count(p) by {
                    assert(h(p) == (f(p) && g(p)));
                }
            }
        }
        if gone > 0 {
            changed = true;
        }
        i = i + 1;
    }
    proof {
        let f = |p: (Seq<char>, Seq<char>)| !spells_synced(p.0, 4);
        let now = lyrics_tags::comments_of(*c);
        lemma_filter_multiset(first, f);
        assert(now.to_multiset() == without_synced(first).to_multiset());
        now.to_multiset_ensures();
        without_synced(first).to_multiset_ensures();
    }
    match content {
        Some(s) => {
            let ghost now = lyrics_tags::comments_of(*c);
            let ghost key = names[0];
            vorbis_insert(c, keys[0].to_owned(), s.to_owned());
            changed = true;
            proof {
                assert(lyrics_tags::str_texts(keys@)[0] == keys@[0]@);
                lemma_canonical_key();
                let g = |p: (Seq<char>, Seq<char>)| !text::same_ignoring_ascii_case(p.0, key);
                lemma_filter_multiset(now, g);
                let kept = lyrics_tags::without_key(now, key);
                assert(kept == now.filter(g));
                assert(kept.to_multiset() =~= now.to_multiset()) by {
                    assert forall|p: (Seq<char>, Seq<char>)| #[trigger]
                        kept.to_multiset().count(p) == now.to_multiset().count(p) by {
                        let f = |p: (Seq<char>, Seq<char>)| !spells_synced(p.0, 4);
                        lemma_filter_multiset(first, f);
                        if !g(p) {
                            assert(text::same_ignoring_ascii_case(
                                p.0,
                                lyrics_tags::synced_keys()[0],
                            ));
                            assert(!f(p));
                        }
                    }
                }
                vstd::seq_lib::to_multiset_build(kept, (key, s@));
                vstd::seq_lib::to_multiset_build(without_synced(first), (key, s@));
            }
        },
        None => {},
    }
    changed
}

/// The value under a key, where exactly one pair has it.
proof fn lemma_only_value(items: Seq<(Seq<char>, Seq<char>)>, key: Seq<char>, at: int)
    requires
        0 <= at < items.len(),
        text::same_ignoring_ascii_case(items[at].0, key),
        forall|i: int|
            0 <= i < items.len() && text::same_ignoring_ascii_case((#[trigger] items[i]).0, key)
                ==> items[i].1 == items[at].1,
    ensures
        lyrics_tags::first_comment(items, key) == Some(items[at].1),
    decreases items.len(),
{
    if !text::same_ignoring_ascii_case(items[0].0, key) {
        let rest = items.drop_first();
        assert(rest[at - 1] == items[at]);
        assert forall|i: int|
            0 <= i < rest.len() && text::same_ignoring_ascii_case((#[trigger] rest[i]).0, key) implies rest[i].1
            == rest[at - 1].1 by {
            assert(rest[i] == items[i + 1]);
        }
        lemma_only_value(rest, key, at - 1);
    }
}

/// A key that no pair has gives nothing.
proof fn lemma_no_value(items: Seq<(Seq<char>, Seq<char>)>, key: Seq<char>)
    requires
        forall|i: int|
            0 <= i < items.len() ==> !text::same_ignoring_ascii_case((#[trigger] items[i]).0, key),
    ensures
        lyrics_tags::first_comment(items, key) is None,
    decreases items.len(),
{
    if items.len() > 0 {
        assert forall|i: int| 0 <= i < items.drop_first().len() implies !text::same_ignoring_ascii_case(
            (#[trigger] items.drop_first()[i]).0,
            key,
        ) by {
            assert(items.drop_first()[i] == items[i + 1]);
        }
        lemma_no_value(items.drop_first(), key);
    }
}

/// What a stamp writes into a Vorbis tag is what the reader of timed lyrics
/// takes out of it, whatever the tag held before.
pub proof fn a_vorbis_stamp_reads_back(
    before: Seq<(Seq<char>, Seq<char>)>,
    after: Seq<(Seq<char>, Seq<char>)>,
    content: Seq<char>,
)
    requires
        !text::is_blank(content),
        after.to_multiset() == stamped_comments(before, Some(content)).to_multiset(),
    ensures
        lyrics_tags::first_real(
            lyrics_tags::comment_values(after, lyrics_tags::synced_keys()),
        ) == Some(text::trimmed(content)),
{
    let key = lyrics_tags::synced_keys()[0];
    let s = stamped_comments(before, Some(content));
    let kept = without_synced(before);
    let f = |p: (Seq<char>, Seq<char>)| !spells_synced(p.0, 4);
    s.to_multiset_ensures();
    after.to_multiset_ensures();
    lemma_canonical_key();
    assert(s[kept.len() as int] == (key, content));
    assert(s.contains((key, content)));
    assert(s.to_multiset().count((key, content)) > 0);
    assert(after.contains((key, content)));
    let at = choose|at: int| 0 <= at < after.len() && after[at] == (key, content);
    assert forall|i: int|
        0 <= i < after.len() && text::same_ignoring_ascii_case((#[trigger] after[i]).0, key) implies after[i].1
        == content by {
        assert(after.contains(after[i]));
        assert(after.to_multiset().count(after[i]) > 0);
        assert(s.contains(after[i]));
        let j = choose|j: int| 0 <= j < s.len() && s[j] == after[i];
        if j < kept.len() {
            before.lemma_filter_pred(f, j);
            assert(f(kept[j]));
            assert(spells_synced(kept[j].0, 4));
        }
    }
    lemma_only_value(after, key, at);
    let values = lyrics_tags::comment_values(after, lyrics_tags::synced_keys());
    assert(values[0] == Some(content));
}

/// A stamp that is taken away leaves a Vorbis tag in which the reader of timed
/// lyrics finds nothing.
pub proof fn a_removed_vorbis_stamp_is_gone(
    before: Seq<(Seq<char>, Seq<char>)>,
    after: Seq<(Seq<char>, Seq<char>)>,
)
    requires
        after.to_multiset() == stamped_comments(before, None).to_multiset(),
    ensures
        lyrics_tags::first_real(
            lyrics_tags::comment_values(after, lyrics_tags::synced_keys()),
        ) is None,
{
    let kept = without_synced(before);
    let names = lyrics_tags::synced_keys();
    let f = |p: (Seq<char>, Seq<char>)| !spells_synced(p.0, 4);
    kept.to_multiset_ensures();
    after.to_multiset_ensures();
    let values = lyrics_tags::comment_values(after, names);
    assert forall|k: int| 0 <= k < 4 implies (#[trigger] values[k]) is None by {
        assert forall|i: int| 0 <= i < after.len() implies !text::same_ignoring_ascii_case(
            (#[trigger] after[i]).0,
            names[k],
        ) by {
            assert(after.contains(after[i]));
            assert(after.to_multiset().count(after[i]) > 0);
            assert(kept.contains(after[i]));
            let j = choose|j: int| 0 <= j < kept.len() && kept[j] == after[i];
            before.lemma_filter_pred(f, j);
            assert(f(kept[j]));
            if text::same_ignoring_ascii_case(after[i].0, names[k]) {
                assert(spells_synced(kept[j].0, 4));
            }
        }
        lemma_no_value(after, names[k]);
    }
    lemma_all_absent(values);
}

proof fn lemma_all_absent(values: Seq<Option<Seq<char>>>)
    requires
        forall|k: int| 0 <= k < values.len() ==> (#[trigger] values[k]) is None,
    ensures
        lyrics_tags::first_real(values) is None,
    decreases values.len(),
{
    if values.len() > 0 {
        assert forall|k: int| 0 <= k < values.drop_first().len() implies (
        #[trigger] values.drop_first()[k]) is None by {
            assert(values.drop_first()[k] == values[k + 1]);
        }
        lemma_all_absent(values.drop_first());
    }
}

/// The pairs of an ID3v2 tag under none of the first `n` spellings.
pub open spec fn unstamped_texts(items: Seq<(Seq<char>, Seq<char>)>, n: int) -> Seq<
    (Seq<char>, Seq<char>),
> {
    items.filter(
        |p: (Seq<char>, Seq<char>)| !lyrics_tags::synced_keys().take(n).contains(p.0),
    )
}

/// What a stamp makes of an ID3v2 tag.
pub open spec fn stamped_texts(
    items: Seq<(Seq<char>, Seq<char>)>,
    content: Option<Seq<char>>,
) -> Seq<(Seq<char>, Seq<char>)> {
    match content {
        Some(c) => unstamped_texts(items, 4).push((lyrics_tags::synced_keys()[0], c)),
        None => unstamped_texts(items, 4),
    }
}

/// Whether a description stands among the pairs.
pub open spec fn describes(items: Seq<(Seq<char>, Seq<char>)>, d: Seq<char>) -> bool {
    exists|i: int| 0 <= i < items.len() && (#[trigger] items[i]).0 == d
}

/// Whether a spelling of the key of timed lyrics is among the descriptions.
pub open spec fn has_stamp(items: Seq<(Seq<char>, Seq<char>)>, n: int) -> bool {
    exists|j: int| 0 <= j < n && describes(items, #[trigger] lyrics_tags::synced_keys()[j])
}

proof fn lemma_user_text_index(items: Seq<(Seq<char>, Seq<char>)>, d: Seq<char>)
    ensures
        0 <= lyrics_tags::user_text_index(items, d) <= items.len(),
        lyrics_tags::user_text_index(items, d) < items.len() <==> describes(items, d),
        lyrics_tags::user_text_index(items, d) < items.len() ==> items[lyrics_tags::user_text_index(
            items,
            d,
        )].0 == d,
        forall|i: int|
            0 <= i < lyrics_tags::user_text_index(items, d) ==> (#[trigger] items[i]).0 != d,
    decreases items.len(),
{
    if items.len() > 0 && items[0].0 != d {
        let rest = items.drop_first();
        lemma_user_text_index(rest, d);
        let k = lyrics_tags::user_text_index(rest, d);
        if describes(items, d) {
            let i = choose|i: int| 0 <= i < items.len() && (#[trigger] items[i]).0 == d;
            assert(rest[i - 1] == items[i]);
        }
        if k < rest.len() {
            assert(items[k + 1] == rest[k]);
        }
        assert forall|i: int| 0 <= i < 1 + k implies (#[trigger] items[i]).0 != d by {
            if i > 0 {
                assert(rest[i - 1] == items[i]);
            }
        }
    } else if items.len() > 0 {
        assert(items[0].0 == d);
    }
}

/// Whether a pair has another description.
spec fn is_other(d: Seq<char>) -> spec_fn((Seq<char>, Seq<char>)) -> bool {
    |p: (Seq<char>, Seq<char>)| p.0 != d
}

/// The pairs with another description.
spec fn undescribed(items: Seq<(Seq<char>, Seq<char>)>, d: Seq<char>) -> Seq<
    (Seq<char>, Seq<char>),
> {
    items.filter(is_other(d))
}

/// Taking the first pair with a description away leaves those with others, and takes
/// nothing away where there is none.
proof fn lemma_one_text_goes(items: Seq<(Seq<char>, Seq<char>)>, d: Seq<char>)
    ensures
        undescribed(lyrics_tags::without_user_text(items, d), d) == undescribed(items, d),
        !describes(items, d) ==> undescribed(items, d) == items,
{
    let other = is_other(d);
    lemma_user_text_index(items, d);
    let k = lyrics_tags::user_text_index(items, d);
    if k < items.len() {
        let (front, back) = (items.take(k), items.skip(k + 1));
        let one = seq![items[k]];
        assert(items =~= front + one + back);
        assert(items.remove(k) =~= front + back);
        Seq::filter_distributes_over_add(front + one, back, other);
        Seq::filter_distributes_over_add(front, one, other);
        Seq::filter_distributes_over_add(front, back, other);
        one.lemma_all_neg_filter_empty(other);
        assert(front.filter(other) + one.filter(other) =~= front.filter(other));
    } else {
        lemma_all_kept(items, other);
    }
}

/// A filter that every element passes keeps all.
proof fn lemma_all_kept(
    items: Seq<(Seq<char>, Seq<char>)>,
    keep: spec_fn((Seq<char>, Seq<char>)) -> bool,
)
    requires
        forall|i: int| 0 <= i < items.len() ==> keep(#[trigger] items[i]),
    ensures
        items.filter(keep) == items,
    decreases items.len(),
{
    reveal(Seq::filter);
    if items.len() > 0 {
        let rest = items.drop_last();
        assert forall|i: int| 0 <= i < rest.len() implies keep(#[trigger] rest[i]) by {
            assert(rest[i] == items[i]);
        }
        lemma_all_kept(rest, keep);
        assert(keep(items[items.len() - 1]));
        assert(items.filter(keep) =~= items);
    }
}

/// One more spelling goes.
proof fn lemma_one_more_spelling(items: Seq<(Seq<char>, Seq<char>)>, n: int)
    requires
        0 <= n < 4,
    ensures
        undescribed(unstamped_texts(items, n), lyrics_tags::synced_keys()[n]) == unstamped_texts(
            items,
            n + 1,
        ),
    decreases items.len(),
{
    let keys = lyrics_tags::synced_keys();
    reveal(Seq::filter);
    if items.len() > 0 {
        let rest = items.drop_last();
        let x = items.last();
        lemma_one_more_spelling(rest, n);
        assert(keys.take(n + 1) =~= keys.take(n).push(keys[n]));
        assert(keys.take(n + 1).contains(x.0) <==> keys.take(n).contains(x.0) || x.0 == keys[n]) by {
            let (some, more) = (keys.take(n), keys.take(n + 1));
            if some.contains(x.0) {
                let k = choose|k: int| 0 <= k < some.len() && some[k] == x.0;
                assert(more[k] == x.0);
            }
            if more.contains(x.0) {
                let k = choose|k: int| 0 <= k < more.len() && more[k] == x.0;
                if k < n {
                    assert(some[k] == x.0);
                }
            }
            assert(more[n] == keys[n]);
        }
        if !keys.take(n).contains(x.0) {
            let kept = unstamped_texts(rest, n).push(x);
            assert(unstamped_texts(items, n) == kept);
            assert(kept.drop_last() =~= unstamped_texts(rest, n));
        }
    }
}

/// The four spellings differ.
proof fn lemma_keys_differ()
    ensures
        forall|i: int, j: int|
            0 <= i < j < 4 ==> #[trigger] lyrics_tags::synced_keys()[i]
                != #[trigger] lyrics_tags::synced_keys()[j],
{
    reveal_strlit("SYNCEDLYRICS");
    reveal_strlit("SYNCED LYRICS");
    reveal_strlit("SYNCED_LYRICS");
    reveal_strlit("LYRICS_SYNCED");
    assert("SYNCEDLYRICS"@[6] == 'L' && "SYNCED LYRICS"@[6] == ' ' && "SYNCED_LYRICS"@[6] == '_'
        && "LYRICS_SYNCED"@[0] == 'L' && "SYNCEDLYRICS"@[0] == 'S' && "SYNCED LYRICS"@[0] == 'S'
        && "SYNCED_LYRICS"@[0] == 'S');
}

/// The first spellings are gone, and every other description is there or not as it was.
proof fn lemma_unstamped_describes(items: Seq<(Seq<char>, Seq<char>)>, n: int, d: Seq<char>)
    ensures
        describes(unstamped_texts(items, n), d) <==> describes(items, d)
            && !lyrics_tags::synced_keys().take(n).contains(d),
{
    broadcast use vstd::seq_lib::group_filter_ensures;

    let keep = |p: (Seq<char>, Seq<char>)| !lyrics_tags::synced_keys().take(n).contains(p.0);
    let after = items.filter(keep);
    if describes(after, d) {
        let i = choose|i: int| 0 <= i < after.len() && (#[trigger] after[i]).0 == d;
        assert(after.contains(after[i]));
        items.lemma_filter_contains_rev(keep, after[i]);
        let k = choose|k: int| 0 <= k < items.len() && items[k] == after[i];
        assert(items[k].0 == d);
        assert(keep(after[i]));
    }
    if describes(items, d) && !lyrics_tags::synced_keys().take(n).contains(d) {
        let i = choose|i: int| 0 <= i < items.len() && (#[trigger] items[i]).0 == d;
        assert(keep(items[i]));
        assert(after.contains(items[i]));
        let k = choose|k: int| 0 <= k < after.len() && after[k] == items[i];
        assert(after[k].0 == d);
    }
}

/// Stamp an ID3v2 tag. Answers whether the tag changed, which is whether its
/// file has to be written.
pub fn restamp_id3v2(t: &mut Id3v2Tag, content: Option<&str>) -> (changed: bool)
    ensures
        lyrics_tags::user_texts_of(*final(t)) == stamped_texts(
            lyrics_tags::user_texts_of(*old(t)),
            match content {
                Some(s) => Some(s@),
                None => None,
            },
        ),
        changed == (content is Some || has_stamp(lyrics_tags::user_texts_of(*old(t)), 4)),
{
    let keys = synced_lyrics_keys();
    let ghost first = lyrics_tags::user_texts_of(*t);
    let mut changed = false;
    let mut i: usize = 0;
    proof {
        let keep = |p: (Seq<char>, Seq<char>)| !lyrics_tags::synced_keys().take(0).contains(p.0);
        lemma_all_kept(first, keep);
    }
    while i < keys.len()
        invariant
            i <= keys@.len(),
            keys@.len() == 4,
            lyrics_tags::str_texts(keys@) == lyrics_tags::synced_keys(),
            lyrics_tags::user_texts_of(*t) == unstamped_texts(first, i as int),
            changed == has_stamp(first, i as int),
        decreases keys@.len() - i,
    {
        let ghost key = lyrics_tags::synced_keys()[i as int];
        let ghost before = unstamped_texts(first, i as int);
        assert(lyrics_tags::str_texts(keys@)[i as int] == keys@[i as int]@);
        proof {
            lemma_unstamped_describes(first, i as int, key);
            lemma_keys_differ();
            assert(!lyrics_tags::synced_keys().take(i as int).contains(key));
            lemma_user_text_index(before, key);
            lemma_one_text_goes(before, key);
            lemma_one_more_spelling(first, i as int);
            if has_stamp(first, i + 1) && !has_stamp(first, i as int) {
                let j = choose|j: int|
                    0 <= j < i + 1 && describes(first, #[trigger] lyrics_tags::synced_keys()[j]);
                assert(j == i);
            }
        }
        let mut gone = id3v2_remove(t, keys[i]);
        if gone {
            assert(describes(first, lyrics_tags::synced_keys()[i as int]));
            changed = true;
        }
        while gone
            invariant
                i < keys@.len(),
                key == keys@[i as int]@,
                undescribed(lyrics_tags::user_texts_of(*t), key) == undescribed(before, key),
                !gone ==> !describes(lyrics_tags::user_texts_of(*t), key),
            decreases
                lyrics_tags::user_texts_of(*t).len(),
                if gone {
                    1int
                } else {
                    0int
                },
        {
            proof {
                lemma_user_text_index(lyrics_tags::user_texts_of(*t), key);
                lemma_one_text_goes(lyrics_tags::user_texts_of(*t), key);
            }
            gone = id3v2_remove(t, keys[i]);
        }
        proof {
            lemma_one_text_goes(lyrics_tags::user_texts_of(*t), key);
        }
        i = i + 1;
    }
    match content {
        Some(s) => {
            proof {
                assert(lyrics_tags::str_texts(keys@)[0] == keys@[0]@);
                let key = lyrics_tags::synced_keys()[0];
                lemma_unstamped_describes(first, 4, key);
                assert(lyrics_tags::synced_keys().take(4)[0] == key);
                lemma_user_text_index(unstamped_texts(first, 4), key);
            }
            id3v2_insert(t, keys[0].to_owned(), s.to_owned());
            changed = true;
        },
        None => {},
    }
    changed
}

/// What a stamp writes into an ID3v2 tag is what the reader of timed lyrics
/// takes out of it, and a stamp that is taken away leaves nothing for it to
/// find, however often the tag held a spelling of the key.
pub proof fn an_id3v2_stamp_reads_back(before: Seq<(Seq<char>, Seq<char>)>, content: Seq<char>)
    requires
        !text::is_blank(content),
    ensures
        lyrics_tags::first_real(
            lyrics_tags::user_values(
                stamped_texts(before, Some(content)),
                lyrics_tags::synced_keys(),
            ),
        ) == Some(text::trimmed(content)),
        lyrics_tags::first_real(
            lyrics_tags::user_values(stamped_texts(before, None), lyrics_tags::synced_keys()),
        ) is None,
{
    let names = lyrics_tags::synced_keys();
    let bare = unstamped_texts(before, 4);
    assert forall|k: int| 0 <= k < 4 implies !describes(bare, #[trigger] names[k]) by {
        lemma_unstamped_describes(before, 4, names[k]);
        assert(names.take(4)[k] == names[k]);
    }
    let key = names[0];
    let after = stamped_texts(before, Some(content));
    lemma_user_text_index(after, key);
    assert(after[bare.len() as int].0 == key);
    assert(describes(after, key));
    let at = lyrics_tags::user_text_index(after, key);
    if at < bare.len() {
        assert(bare[at] == after[at]);
        assert(describes(bare, key));
    }
    let values = lyrics_tags::user_values(after, names);
    assert(values[0] == Some(content));
    let none = lyrics_tags::user_values(bare, names);
    assert forall|k: int| 0 <= k < none.len() implies (#[trigger] none[k]) is None by {
        lemma_user_text_index(bare, names[k]);
        assert(!describes(bare, names[k]));
    }
    lemma_all_absent(none);
}

/// A stamp leaves every pair that is under no spelling of the key, in a Vorbis tag and in
/// an ID3v2 tag, and adds the words that it writes under the canonical key and no more.
pub proof fn a_stamp_leaves_the_rest(
    items: Seq<(Seq<char>, Seq<char>)>,
    content: Option<Seq<char>>,
    p: (Seq<char>, Seq<char>),
)
    ensures
        items.contains(p) && !text::same_ignoring_ascii_case(p.0, "SYNCEDLYRICS"@)
            && !text::same_ignoring_ascii_case(p.0, "SYNCED LYRICS"@)
            && !text::same_ignoring_ascii_case(p.0, "SYNCED_LYRICS"@)
            && !text::same_ignoring_ascii_case(p.0, "LYRICS_SYNCED"@) ==> stamped_comments(
            items,
            content,
        ).contains(p),
        items.contains(p) && p.0 != "SYNCEDLYRICS"@ && p.0 != "SYNCED LYRICS"@ && p.0
            != "SYNCED_LYRICS"@ && p.0 != "LYRICS_SYNCED"@ ==> stamped_texts(
            items,
            content,
        ).contains(p),
        stamped_comments(items, content).contains(p) ==> items.contains(p) || (content
            == Some(p.1) && p.0 == "SYNCEDLYRICS"@),
        stamped_texts(items, content).contains(p) ==> items.contains(p) || (content == Some(p.1)
            && p.0 == "SYNCEDLYRICS"@),
        content matches Some(c) ==> stamped_comments(items, content).last() == ("SYNCEDLYRICS"@, c)
            && stamped_texts(items, content).last() == ("SYNCEDLYRICS"@, c),
{
    broadcast use vstd::seq_lib::group_filter_ensures;

    let names = lyrics_tags::synced_keys();
    let f = |q: (Seq<char>, Seq<char>)| !spells_synced(q.0, 4);
    let g = |q: (Seq<char>, Seq<char>)| !names.take(4).contains(q.0);
    assert(names.take(4) =~= names);
    let (a, b) = (items.filter(f), items.filter(g));
    let (s, t) = (stamped_comments(items, content), stamped_texts(items, content));
    if items.contains(p) {
        let k = choose|k: int| 0 <= k < items.len() && items[k] == p;
        if f(p) {
            assert(a.contains(items[k]));
            let i = choose|i: int| 0 <= i < a.len() && a[i] == p;
            assert(s[i] == p);
        }
        if g(p) {
            assert(b.contains(items[k]));
            let i = choose|i: int| 0 <= i < b.len() && b[i] == p;
            assert(t[i] == p);
        }
    }
    if s.contains(p) {
        let i = choose|i: int| 0 <= i < s.len() && s[i] == p;
        if i < a.len() {
            assert(a.contains(a[i]));
            items.lemma_filter_contains_rev(f, p);
        }
    }
    if t.contains(p) {
        let i = choose|i: int| 0 <= i < t.len() && t[i] == p;
        if i < b.len() {
            assert(b.contains(b[i]));
            items.lemma_filter_contains_rev(g, p);
        }
    }
}

/// Whether a tag changes is whether something is written or a spelling of the key was there.
pub proof fn a_spelling_is_a_stamp(items: Seq<(Seq<char>, Seq<char>)>)
    ensures
        has_stamp(items, 4) <==> exists|i: int|
            0 <= i < items.len() && ((#[trigger] items[i]).0 == "SYNCEDLYRICS"@ || items[i].0
                == "SYNCED LYRICS"@ || items[i].0 == "SYNCED_LYRICS"@ || items[i].0
                == "LYRICS_SYNCED"@),
{
    let names = lyrics_tags::synced_keys();
    assert(names[0] == "SYNCEDLYRICS"@ && names[1] == "SYNCED LYRICS"@ && names[2]
        == "SYNCED_LYRICS"@ && names[3] == "LYRICS_SYNCED"@);
    if has_stamp(items, 4) {
        let j = choose|j: int| 0 <= j < 4 && describes(items, #[trigger] names[j]);
        let i = choose|i: int| 0 <= i < items.len() && (#[trigger] items[i]).0 == names[j];
        assert(items[i].0 == names[j]);
    }
    if exists|i: int|
        0 <= i < items.len() && ((#[trigger] items[i]).0 == names[0] || items[i].0 == names[1]
            || items[i].0 == names[2] || items[i].0 == names[3]) {
        let i = choose|i: int|
            0 <= i < items.len() && ((#[trigger] items[i]).0 == names[0] || items[i].0 == names[1]
                || items[i].0 == names[2] || items[i].0 == names[3]);
        assert(describes(items, items[i].0));
    }
}

} // verus!
