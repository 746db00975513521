//! Artists like another one: when the answer is fetched anew, and what the
//! interface is told of each.
//!
//! Artists are matched by their canonical names, which come with them.

use vstd::prelude::*;

use crate::text;
use crate::text::{clone_opt, list_has, same_text};
use crate::text_map::TextMap;

verus! {

/// How long an answer is good for, in milliseconds: thirty days.
pub const CACHE_TTL_MS: i64 = 2_592_000_000;

/// How many artists the interface is told.
pub const RESULT_LIMIT: usize = 12;

/// Where an answer comes from.
#[derive(Clone, Copy, PartialEq, Eq, Debug, Structural)]
pub enum SimilarPlan {
    /// From the cache.
    Cached,
    /// From nowhere: there is none.
    Nothing,
    /// From the network.
    Fetch,
}

/// Whether a cached answer is still good.
pub open spec fn is_fresh(expires_at: Option<i64>, now: i64) -> bool {
    expires_at matches Some(t) && t > now
}

/// Where an answer comes from. While the network is off a cached answer will do
/// however old it is.
pub fn similar_plan(offline: bool, expires_at: Option<i64>, now: i64) -> (r: SimilarPlan)
    ensures
        r == (if offline {
            if expires_at is Some {
                SimilarPlan::Cached
            } else {
                SimilarPlan::Nothing
            }
        } else if is_fresh(expires_at, now) {
            SimilarPlan::Cached
        } else {
            SimilarPlan::Fetch
        }),
{
    match expires_at {
        Some(t) => {
            if offline || t > now {
                SimilarPlan::Cached
            } else {
                SimilarPlan::Fetch
            }
        },
        None => {
            if offline {
                SimilarPlan::Nothing
            } else {
                SimilarPlan::Fetch
            }
        },
    }
}

/// Whether an answer is to be fetched ahead of time: for an artist with a
/// canonical name, unless a good one is cached.
pub fn ensure_similar_cached(canonical: &str, expires_at: Option<i64>, now: i64) -> (r: bool)
    ensures
        r == (canonical@.len() > 0 && !is_fresh(expires_at, now)),
{
    if canonical.is_empty() {
        return false;
    }
    match expires_at {
        Some(t) => t <= now,
        None => true,
    }
}

/// Until when an answer that is fetched now is good.
pub fn expiry(now: i64) -> (r: i64)
    requires
        now <= i64::MAX - CACHE_TTL_MS,
    ensures
        r == now + CACHE_TTL_MS,
        r - now == 2_592_000_000,
{
    now + CACHE_TTL_MS
}

/// An answer that was fetched is good for its time and no longer.
pub proof fn an_answer_is_good_for_its_time(fetched: i64, now: i64)
    requires
        fetched <= i64::MAX - CACHE_TTL_MS,
        fetched <= now,
    ensures
        is_fresh(Some((fetched + CACHE_TTL_MS) as i64), now) <==> now - fetched < CACHE_TTL_MS,
        is_fresh(Some((fetched + CACHE_TTL_MS) as i64), now) <==> now - fetched < 2_592_000_000,
{
}

/// An artist like another one, as it was fetched.
#[derive(PartialEq, Eq, Debug)]
pub struct RawSimilar {
    pub name: String,
    pub canonical: String,
    /// The bits of how alike the two are.
    pub score_bits: u32,
    pub picture_url: Option<String>,
    pub source: String,
}

/// What was fetched, with the name of who served it.
#[derive(PartialEq, Eq, Debug)]
pub struct Fetched {
    pub artists: Vec<RawSimilar>,
    pub source: &'static str,
}

/// Whether Last.fm's answer will do, so that Deezer is not asked.
pub fn lastfm_will_do(lastfm: &Option<Vec<RawSimilar>>) -> (r: bool)
    ensures
        r == (lastfm matches Some(l) && l@.len() > 0),
{
    match lastfm {
        Some(l) => l.len() > 0,
        None => false,
    }
}

/// The answer that is kept: Last.fm's where it will do, and otherwise Deezer's,
/// or an empty one in Deezer's name.
pub fn fetch_and_cache(lastfm: Option<Vec<RawSimilar>>, deezer: Option<Vec<RawSimilar>>) -> (r: Fetched)
    ensures
        match (lastfm, deezer) {
            (Some(l), _) if l@.len() > 0 => r.artists == l && r.source@ == "lastfm"@,
            (_, Some(d)) => r.artists == d && r.source@ == "deezer"@,
            (_, None) => r.artists@.len() == 0 && r.source@ == "deezer"@,
        },
{
    if let Some(l) = lastfm {
        if l.len() > 0 {
            return Fetched { artists: l, source: "lastfm" };
        }
    }
    match deezer {
        Some(d) => Fetched { artists: d, source: "deezer" },
        None => Fetched { artists: Vec::new(), source: "deezer" },
    }
}

/// The first of some names that is another one, whatever the case.
pub open spec fn same_name_index(names: Seq<Seq<char>>, wanted: Seq<char>) -> int
    decreases names.len(),
{
    if names.len() == 0 || text::unicode_lowercase(names[0]) == text::unicode_lowercase(wanted) {
        0
    } else {
        1 + same_name_index(names.drop_first(), wanted)
    }
}

/// Which of the artists that Deezer found is the one that was looked for: the
/// first of its name, whatever the case.
pub fn try_deezer(names: &Vec<String>, wanted: &str) -> (r: Option<usize>)
    ensures
        match r {
            Some(i) => i < names@.len() && i == same_name_index(text::texts(names@), wanted@),
            None => same_name_index(text::texts(names@), wanted@) == names@.len(),
        },
{
    let lower = wanted.to_lowercase();
    let ghost all = text::texts(names@);
    let total: usize = names.len();
    let mut i: usize = 0;
    assert(all.skip(0) =~= all);
    while i < total
        invariant
            total == names@.len(),
            all == text::texts(names@),
            i <= total,
            lower@ == text::unicode_lowercase(wanted@),
            same_name_index(all, wanted@) == i + same_name_index(all.skip(i as int), wanted@),
        decreases total - i,
    {
        assert(all.skip(i as int)[0] == names@[i as int]@);
        assert(all.skip(i as int).drop_first() =~= all.skip(i + 1));
        if same_text(names[i].as_str().to_lowercase().as_str(), lower.as_str()) {
            return Some(i);
        }
        i = i + 1;
    }
    None
}

/// The better of two pictures, where there is one.
pub fn first_picture(better: &Option<String>, other: &Option<String>) -> (r: Option<String>)
    ensures
        r == (match *better {
            Some(_) => *better,
            None => *other,
        }),
{
    match better {
        Some(_) => clone_opt(better),
        None => clone_opt(other),
    }
}

// Pictures.

/// A picture: where it is on the network, and the hash under which it is kept.
#[derive(PartialEq, Eq, Debug)]
pub struct Picture {
    pub url: Option<String>,
    pub hash: Option<String>,
}

/// A picture that is already known, by its artist's canonical name.
#[derive(PartialEq, Eq, Debug)]
pub struct KnownPicture {
    pub canonical: String,
    pub picture: Picture,
}

/// The known pictures of the artists that are asked about; of two for one artist
/// the later.
pub open spec fn known_of(wanted: Seq<Seq<char>>, rows: Seq<KnownPicture>) -> Map<Seq<char>, Picture>
    decreases rows.len(),
{
    if rows.len() == 0 {
        Map::empty()
    } else {
        let earlier = known_of(wanted, rows.drop_last());
        let row = rows.last();
        if row.canonical@.len() > 0 && wanted.contains(row.canonical@) {
            earlier.insert(row.canonical@, row.picture)
        } else {
            earlier
        }
    }
}

/// The known pictures of the artists that are asked about.
pub fn known_pictures(wanted: &Vec<String>, rows: Vec<KnownPicture>) -> (m: TextMap<Picture>)
    ensures
        m.wf(),
        m@ == known_of(text::texts(wanted@), rows@),
{
    let ghost all = rows@;
    let mut rest = rows;
    let mut m: TextMap<Picture> = TextMap::new();
    let ghost mut n: int = 0;
    assert(all.skip(0) =~= all);
    assert(known_of(text::texts(wanted@), all.take(0)) =~= Map::empty());
    while rest.len() > 0
        invariant
            0 <= n <= all.len(),
            rest@ == all.skip(n),
            m.wf(),
            m@ == known_of(text::texts(wanted@), all.take(n)),
        decreases rest@.len(),
    {
        let row = rest.remove(0);
        proof {
            assert(all.take(n + 1).drop_last() =~= all.take(n));
            assert(all.take(n + 1).last() == all[n]);
            assert(rest@ =~= all.skip(n + 1));
            n = n + 1;
        }
        if !row.canonical.as_str().is_empty() && list_has(wanted, row.canonical.as_str()) {
            m.insert(row.canonical, row.picture);
        }
    }
    assert(all.take(n) =~= all);
    m
}

/// Whether an artist's picture is to be looked for.
pub open spec fn lacks_picture(a: RawSimilar, known: Map<Seq<char>, Picture>) -> bool {
    a.canonical@.len() > 0 && !known.contains_key(a.canonical@)
}

/// The artists whose pictures are to be looked for: among those that are shown.
pub open spec fn lacking(raw: Seq<RawSimilar>, known: Map<Seq<char>, Picture>) -> Seq<Seq<char>>
    decreases raw.len(),
{
    if raw.len() == 0 {
        seq![]
    } else {
        let earlier = lacking(raw.drop_last(), known);
        if lacks_picture(raw.last(), known) {
            earlier.push(raw.last().name@)
        } else {
            earlier
        }
    }
}

/// As many as are shown, or all.
pub open spec fn shown_count(n: nat) -> int {
    if n < RESULT_LIMIT {
        n as int
    } else {
        RESULT_LIMIT as int
    }
}

/// The artists whose pictures are to be looked for: none while the network is
/// off.
pub fn enrich_with_deezer_pictures(raw: &Vec<RawSimilar>, known: &TextMap<Picture>, offline: bool) -> (v:
    Vec<String>)
    requires
        known.wf(),
    ensures
        text::texts(v@) == (if offline {
            seq![]
        } else {
            lacking(raw@.take(shown_count(raw@.len())), known@)
        }),
{
    let mut v: Vec<String> = Vec::new();
    assert(text::texts(v@) =~= seq![]);
    if offline {
        return v;
    }
    let total: usize = if raw.len() < RESULT_LIMIT {
        raw.len()
    } else {
        RESULT_LIMIT
    };
    let ghost shown = raw@.take(total as int);
    let mut i: usize = 0;
    assert(lacking(shown.take(0), known@) =~= seq![]);
    while i < total
        invariant
            total <= raw@.len(),
            shown == raw@.take(total as int),
            known.wf(),
            i <= total,
            text::texts(v@) == lacking(shown.take(i as int), known@),
        decreases total - i,
    {
        assert(shown.take(i + 1).drop_last() =~= shown.take(i as int));
        assert(shown.take(i + 1).last() == raw@[i as int]);
        let a = &raw[i];
        if !a.canonical.as_str().is_empty() {
            if let None = known.get(a.canonical.as_str()) {
                let ghost earlier = v@;
                v.push(a.name.clone());
                assert(text::texts(v@) =~= text::texts(earlier).push(a.name@));
            }
        }
        i = i + 1;
    }
    assert(shown.take(total as int) =~= shown);
    v
}

/// An artist that Deezer found.
#[derive(PartialEq, Eq, Debug)]
pub struct DeezerHit {
    pub id: i64,
    pub name: String,
    pub canonical: String,
    pub picture_xl: Option<String>,
    pub picture_big: Option<String>,
}

/// The first of what Deezer found that has this canonical name.
pub open spec fn hit_index(hits: Seq<DeezerHit>, canonical: Seq<char>) -> Option<int>
    decreases hits.len(),
{
    if hits.len() == 0 {
        None
    } else {
        match hit_index(hits.drop_last(), canonical) {
            Some(i) => Some(i),
            None => if hits.last().canonical@ == canonical {
                Some(hits.len() - 1)
            } else {
                None
            },
        }
    }
}

proof fn lemma_hit_index(hits: Seq<DeezerHit>, canonical: Seq<char>, n: int)
    requires
        0 < n <= hits.len(),
        hit_index(hits.take(n - 1), canonical) is None,
        hits[n - 1].canonical@ == canonical,
    ensures
        hit_index(hits, canonical) == Some(n - 1),
    decreases hits.len(),
{
    if n == hits.len() {
        assert(hits.take(n - 1) =~= hits.drop_last());
    } else {
        assert(hits.drop_last().take(n - 1) =~= hits.take(n - 1));
        lemma_hit_index(hits.drop_last(), canonical, n);
    }
}

/// Which of what Deezer found is the artist that was looked for: the first of its
/// canonical name.
pub fn pick_hit(hits: &Vec<DeezerHit>, canonical: &str) -> (r: Option<usize>)
    ensures
        match hit_index(hits@, canonical@) {
            Some(i) => r matches Some(k) && k == i && k < hits@.len(),
            None => r is None,
        },
{
    let mut i: usize = 0;
    assert(hits@.take(0) =~= Seq::empty());
    while i < hits.len()
        invariant
            i <= hits@.len(),
            hit_index(hits@.take(i as int), canonical@) is None,
        decreases hits@.len() - i,
    {
        assert(hits@.take(i + 1).drop_last() =~= hits@.take(i as int));
        if same_text(hits[i].canonical.as_str(), canonical) {
            proof {
                lemma_hit_index(hits@, canonical@, i + 1);
            }
            return Some(i);
        }
        i = i + 1;
    }
    assert(hits@.take(i as int) =~= hits@);
    None
}

/// What is stored of an artist's picture.
#[derive(PartialEq, Eq, Debug)]
pub struct PictureRow {
    pub deezer_id: i64,
    pub name: String,
    pub picture: Picture,
    pub fetched_at: i64,
    pub expires_at: i64,
}

/// What is stored of the picture of an artist that Deezer found: the larger picture's
/// link, or else the smaller one's, and the hash under which it was then kept.
pub fn picture_row(hit: &DeezerHit, hash: Option<String>, now: i64) -> (r: PictureRow)
    requires
        now <= i64::MAX - CACHE_TTL_MS,
    ensures
        r.deezer_id == hit.id,
        r.name == hit.name,
        r.picture.url == (match hit.picture_xl {
            Some(_) => hit.picture_xl,
            None => hit.picture_big,
        }),
        r.picture.hash == hash,
        r.fetched_at == now,
        r.expires_at == now + CACHE_TTL_MS,
        r.expires_at - r.fetched_at == 2_592_000_000,
{
    PictureRow {
        deezer_id: hit.id,
        name: hit.name.clone(),
        picture: Picture { url: first_picture(&hit.picture_xl, &hit.picture_big), hash },
        fetched_at: now,
        expires_at: expiry(now),
    }
}

/// The known pictures together with those that were found since; of two for one
/// artist the later.
pub open spec fn known_and_found(
    known: Map<Seq<char>, Picture>,
    found: Seq<KnownPicture>,
) -> Map<Seq<char>, Picture>
    decreases found.len(),
{
    if found.len() == 0 {
        known
    } else {
        known_and_found(known, found.drop_last()).insert(found.last().canonical@, found.last().picture)
    }
}

/// Add the pictures that were found to those that are known.
pub fn add_pictures(known: &mut TextMap<Picture>, found: Vec<KnownPicture>)
    requires
        old(known).wf(),
    ensures
        final(known).wf(),
        final(known)@ == known_and_found(old(known)@, found@),
{
    let ghost all = found@;
    let ghost before = known@;
    let mut rest = found;
    let ghost mut n: int = 0;
    assert(all.skip(0) =~= all);
    assert(all.take(0) =~= Seq::empty());
    while rest.len() > 0
        invariant
            0 <= n <= all.len(),
            rest@ == all.skip(n),
            known.wf(),
            known@ == known_and_found(before, all.take(n)),
        decreases rest@.len(),
    {
        let row = rest.remove(0);
        proof {
            assert(all.take(n + 1).drop_last() =~= all.take(n));
            assert(all.take(n + 1).last() == all[n]);
            assert(rest@ =~= all.skip(n + 1));
            n = n + 1;
        }
        known.insert(row.canonical, row.picture);
    }
    assert(all.take(n) =~= all);
}

/// A picture that was found is known from then on and is not looked for again; what is
/// known of every other artist stays.
pub proof fn a_found_picture_is_known(
    known: Map<Seq<char>, Picture>,
    found: Seq<KnownPicture>,
    a: RawSimilar,
)
    ensures
        (exists|i: int| 0 <= i < found.len() && (#[trigger] found[i]).canonical@ == a.canonical@)
            ==> !lacks_picture(a, known_and_found(known, found)),
        (forall|i: int| 0 <= i < found.len() ==> (#[trigger] found[i]).canonical@ != a.canonical@)
            ==> {
            &&& lacks_picture(a, known_and_found(known, found)) == lacks_picture(a, known)
            &&& known.contains_key(a.canonical@) ==> known_and_found(known, found)[a.canonical@]
                == known[a.canonical@]
        },
    decreases found.len(),
{
    if found.len() > 0 {
        let rest = found.drop_last();
        a_found_picture_is_known(known, rest, a);
        if forall|i: int| 0 <= i < found.len() ==> (#[trigger] found[i]).canonical@ != a.canonical@ {
            assert forall|i: int| 0 <= i < rest.len() implies (#[trigger] rest[i]).canonical@
                != a.canonical@ by {
                assert(rest[i] == found[i]);
            }
            assert(found[found.len() - 1].canonical@ != a.canonical@);
        }
        if exists|i: int| 0 <= i < found.len() && (#[trigger] found[i]).canonical@ == a.canonical@ {
            let i = choose|i: int|
                0 <= i < found.len() && (#[trigger] found[i]).canonical@ == a.canonical@;
            if i < rest.len() {
                assert(rest[i] == found[i]);
            }
        }
    }
}

// What the interface is told.

/// An artist of the library.
#[derive(PartialEq, Eq, Debug)]
pub struct LocalArtist {
    pub id: i64,
    pub picture_hash: Option<String>,
}

/// An artist like another one, as the interface is told it, but for the place
/// where its picture is kept.
#[derive(PartialEq, Eq, Debug)]
pub struct SimilarArtistDto {
    pub name: String,
    /// The bits of how alike the two are.
    pub score_bits: u32,
    pub picture_url: Option<String>,
    /// The hash under which the picture is kept.
    pub picture_hash: Option<String>,
    pub library_artist_id: Option<i64>,
    pub source: String,
}

/// An artist like another one, as the interface is told it: its picture is the
/// library's where that has one, and the link is the known one where there is
/// one.
pub open spec fn told_similar(
    a: RawSimilar,
    local: Map<Seq<char>, LocalArtist>,
    known: Map<Seq<char>, Picture>,
) -> SimilarArtistDto {
    let mine = if local.contains_key(a.canonical@) {
        Some(local[a.canonical@])
    } else {
        None
    };
    let meta = if known.contains_key(a.canonical@) {
        Some(known[a.canonical@])
    } else {
        None
    };
    let theirs = match meta {
        Some(p) => p.hash,
        None => None,
    };
    SimilarArtistDto {
        name: a.name,
        score_bits: a.score_bits,
        picture_url: match meta {
            Some(p) if p.url is Some => p.url,
            _ => a.picture_url,
        },
        picture_hash: match mine {
            Some(l) if l.picture_hash is Some => l.picture_hash,
            _ => theirs,
        },
        library_artist_id: match mine {
            Some(l) => Some(l.id),
            None => None,
        },
        source: a.source,
    }
}

/// The artists like another one, as the interface is told them: the first few,
/// in the order in which they were fetched.
pub fn get_similar_artists(
    raw: &Vec<RawSimilar>,
    local: &TextMap<LocalArtist>,
    known: &TextMap<Picture>,
) -> (v: Vec<SimilarArtistDto>)
    requires
        local.wf(),
        known.wf(),
    ensures
        v@.len() == shown_count(raw@.len()),
        forall|i: int|
            0 <= i < v@.len() ==> #[trigger] v@[i] == told_similar(raw@[i], local@, known@),
{
    let total: usize = if raw.len() < RESULT_LIMIT {
        raw.len()
    } else {
        RESULT_LIMIT
    };
    let mut v: Vec<SimilarArtistDto> = Vec::new();
    let mut i: usize = 0;
    while i < total
        invariant
            total <= raw@.len(),
            local.wf(),
            known.wf(),
            i <= total,
            v@.len() == i,
            forall|j: int|
                0 <= j < i ==> #[trigger] v@[j] == told_similar(raw@[j], local@, known@),
        decreases total - i,
    {
        let a = &raw[i];
        let meta = known.get(a.canonical.as_str());
        let (theirs, link) = match meta {
            Some(p) => (clone_opt(&p.hash), clone_opt(&p.url)),
            None => (None, None),
        };
        let picture_url = match link {
            Some(u) => Some(u),
            None => clone_opt(&a.picture_url),
        };
        let (picture_hash, library_artist_id) = match local.get(a.canonical.as_str()) {
            Some(l) => (
                match &l.picture_hash {
                    Some(_) => clone_opt(&l.picture_hash),
                    None => theirs,
                },
                Some(l.id),
            ),
            None => (theirs, None),
        };
        v.push(
            SimilarArtistDto {
                name: a.name.clone(),
                score_bits: a.score_bits,
                picture_url,
                picture_hash,
                library_artist_id,
                source: a.source.clone(),
            },
        );
        i = i + 1;
    }
    v
}

// What holds of all of them.

/// The artist that was looked for is the first of its name, whatever the case.
pub proof fn the_first_of_its_name_is_found(names: Seq<Seq<char>>, wanted: Seq<char>, k: int)
    requires
        0 <= k <= names.len(),
        k < names.len() ==> text::unicode_lowercase(names[k]) == text::unicode_lowercase(wanted),
        forall|j: int|
            0 <= j < k ==> text::unicode_lowercase(#[trigger] names[j]) != text::unicode_lowercase(
                wanted,
            ),
    ensures
        same_name_index(names, wanted) == k,
    decreases names.len(),
{
    if k > 0 {
        assert(text::unicode_lowercase(names[0]) != text::unicode_lowercase(wanted));
        let rest = names.drop_first();
        assert forall|j: int| 0 <= j < k - 1 implies text::unicode_lowercase(#[trigger] rest[j])
            != text::unicode_lowercase(wanted) by {
            assert(rest[j] == names[j + 1]);
        }
        the_first_of_its_name_is_found(rest, wanted, k - 1);
    }
}

/// The artist that a picture is taken of is the first that was found with its canonical
/// name.
pub proof fn the_first_hit_of_a_name_is_taken(hits: Seq<DeezerHit>, canonical: Seq<char>, k: int)
    requires
        0 <= k <= hits.len(),
        k < hits.len() ==> hits[k].canonical@ == canonical,
        forall|j: int| 0 <= j < k ==> (#[trigger] hits[j]).canonical@ != canonical,
    ensures
        k < hits.len() ==> hit_index(hits, canonical) == Some(k),
        k == hits.len() ==> hit_index(hits, canonical) is None,
    decreases hits.len(),
{
    if hits.len() > 0 {
        let front = hits.drop_last();
        assert forall|j: int| 0 <= j < k && j < front.len() implies (#[trigger] front[j]).canonical@
            != canonical by {
            assert(front[j] == hits[j]);
        }
        if k < front.len() {
            assert(front[k] == hits[k]);
            the_first_hit_of_a_name_is_taken(front, canonical, k);
        } else {
            the_first_hit_of_a_name_is_taken(front, canonical, front.len() as int);
            if k == hits.len() {
                assert(hits[hits.len() - 1].canonical@ != canonical);
            }
        }
    }
}

/// A picture is known where its artist is asked about and has a canonical name; a later one
/// takes the place of an earlier one.
pub proof fn a_stored_picture_is_known(wanted: Seq<Seq<char>>, rows: Seq<KnownPicture>, row: KnownPicture)
    ensures
        known_of(wanted, Seq::<KnownPicture>::empty()) == Map::<Seq<char>, Picture>::empty(),
        row.canonical@.len() > 0 && wanted.contains(row.canonical@) ==> known_of(
            wanted,
            rows.push(row),
        ) == known_of(wanted, rows).insert(row.canonical@, row.picture),
        row.canonical@.len() == 0 || !wanted.contains(row.canonical@) ==> known_of(
            wanted,
            rows.push(row),
        ) == known_of(wanted, rows),
{
    assert(rows.push(row).drop_last() =~= rows);
}

/// A picture that was found is known under its artist's canonical name, a later one in
/// place of an earlier one.
pub proof fn a_found_picture_takes_its_place(
    known: Map<Seq<char>, Picture>,
    found: Seq<KnownPicture>,
    row: KnownPicture,
)
    ensures
        known_and_found(known, Seq::<KnownPicture>::empty()) == known,
        known_and_found(known, found.push(row)) == known_and_found(known, found).insert(
            row.canonical@,
            row.picture,
        ),
{
    assert(found.push(row).drop_last() =~= found);
}

/// A picture is looked for of each artist with a canonical name whose picture is not known,
/// by the artist's name, in order; of no other.
pub proof fn a_picture_is_looked_for_where_none_is_known(
    raw: Seq<RawSimilar>,
    known: Map<Seq<char>, Picture>,
    a: RawSimilar,
)
    ensures
        lacking(Seq::<RawSimilar>::empty(), known).len() == 0,
        a.canonical@.len() > 0 && !known.contains_key(a.canonical@) ==> lacking(raw.push(a), known)
            == lacking(raw, known).push(a.name@),
        a.canonical@.len() == 0 || known.contains_key(a.canonical@) ==> lacking(raw.push(a), known)
            == lacking(raw, known),
{
    assert(raw.push(a).drop_last() =~= raw);
}

/// Twelve artists are shown, or all where there are fewer.
pub proof fn twelve_are_shown(n: nat)
    ensures
        n <= 12 ==> shown_count(n) == n,
        n >= 12 ==> shown_count(n) == 12,
{
}

/// An answer is good until its time, and one that is not there never is.
pub proof fn an_answer_is_good_until_its_time(until: i64, now: i64)
    ensures
        is_fresh(Some(until), now) <==> now < until,
        !is_fresh(None, now),
{
}

/// An artist is told by its own name, likeness and source. Its picture is the library's
/// where that has one and the known one where not; its link is the known one where there is
/// one and its own where not; and its id is the library's.
pub proof fn an_artist_is_told_by_what_is_known(
    a: RawSimilar,
    local: Map<Seq<char>, LocalArtist>,
    known: Map<Seq<char>, Picture>,
)
    ensures
        ({
            let told = told_similar(a, local, known);
            let c = a.canonical@;
            &&& told.name == a.name
            &&& told.score_bits == a.score_bits
            &&& told.source == a.source
            &&& local.contains_key(c) ==> told.library_artist_id == Some(local[c].id)
            &&& !local.contains_key(c) ==> told.library_artist_id is None
            &&& known.contains_key(c) && known[c].url is Some ==> told.picture_url == known[c].url
            &&& !known.contains_key(c) || known[c].url is None ==> told.picture_url == a.picture_url
            &&& local.contains_key(c) && local[c].picture_hash is Some ==> told.picture_hash
                == local[c].picture_hash
            &&& (!local.contains_key(c) || local[c].picture_hash is None) && known.contains_key(c)
                ==> told.picture_hash == known[c].hash
            &&& (!local.contains_key(c) || local[c].picture_hash is None) && !known.contains_key(c)
                ==> told.picture_hash is None
        }),
{
}

} // verus!
