//! The lyrics providers: who is asked, in which order, which of them a profile
//! has switched off, and whose tracks are not searched for at all.

use vstd::prelude::*;
use vstd::string::StringExecFns;

use crate::text;
use crate::text::{chars_of, same_text, string_of};

verus! {

/// `profile_setting` key: the providers that the chain must not ask.
pub const DISABLED_PROVIDERS_KEY: &'static str = "lyrics.disabled_providers";

/// `profile_setting` key: the genres whose tracks are not searched online.
pub const EXCLUDED_GENRES_KEY: &'static str = "lyrics.excluded_genres";

/// How long a provider that could not be reached is left alone.
pub const COOLDOWN_MS: u64 = 600_000;

/// A provider of lyrics on the network.
#[derive(Clone, Copy, PartialEq, Eq, Debug, Structural)]
pub enum Provider {
    Musixmatch,
    Lrclib,
    NetEase,
    Megalobiz,
    Genius,
}

/// The name by which a provider is stored.
pub open spec fn provider_id(p: Provider) -> Seq<char> {
    match p {
        Provider::Musixmatch => "musixmatch"@,
        Provider::Lrclib => "lrclib"@,
        Provider::NetEase => "net_ease"@,
        Provider::Megalobiz => "megalobiz"@,
        Provider::Genius => "genius"@,
    }
}

/// The provider of a stored name.
pub open spec fn provider_named(id: Seq<char>) -> Option<Provider> {
    if id == "musixmatch"@ {
        Some(Provider::Musixmatch)
    } else if id == "lrclib"@ {
        Some(Provider::Lrclib)
    } else if id == "net_ease"@ {
        Some(Provider::NetEase)
    } else if id == "megalobiz"@ {
        Some(Provider::Megalobiz)
    } else if id == "genius"@ {
        Some(Provider::Genius)
    } else {
        None
    }
}

impl Provider {
    /// The name by which a provider is stored.
    pub fn as_str(self) -> (r: &'static str)
        ensures
            r@ == provider_id(self),
    {
        match self {
            Provider::Musixmatch => "musixmatch",
            Provider::Lrclib => "lrclib",
            Provider::NetEase => "net_ease",
            Provider::Megalobiz => "megalobiz",
            Provider::Genius => "genius",
        }
    }

    /// The provider of a stored name.
    pub fn from_id(id: &str) -> (r: Option<Provider>)
        ensures
            r == provider_named(id@),
    {
        if same_text(id, "musixmatch") {
            Some(Provider::Musixmatch)
        } else if same_text(id, "lrclib") {
            Some(Provider::Lrclib)
        } else if same_text(id, "net_ease") {
            Some(Provider::NetEase)
        } else if same_text(id, "megalobiz") {
            Some(Provider::Megalobiz)
        } else if same_text(id, "genius") {
            Some(Provider::Genius)
        } else {
            None
        }
    }
}

/// A stored provider is read back as it was.
pub proof fn a_stored_provider_reads_back(p: Provider)
    ensures
        provider_named(provider_id(p)) == Some(p),
{
    reveal_strlit("musixmatch");
    reveal_strlit("lrclib");
    reveal_strlit("net_ease");
    reveal_strlit("megalobiz");
    reveal_strlit("genius");
    assert("musixmatch"@[1] == 'u' && "lrclib"@[1] == 'r' && "net_ease"@[0] == 'n'
        && "megalobiz"@[0] == 'm' && "megalobiz"@[1] == 'e' && "genius"@[0] == 'g'
        && "musixmatch"@[0] == 'm' && "lrclib"@[0] == 'l');
}

/// The chain that is asked after the exact lookup, in order. The provider of
/// the exact lookup leads, since the chain searches loosely. Musixmatch has a
/// tier of its own.
pub open spec fn chain() -> Seq<Provider> {
    seq![Provider::Lrclib, Provider::NetEase, Provider::Megalobiz, Provider::Genius]
}

/// The chain that is asked after the exact lookup.
pub fn external_fallback_providers() -> (v: Vec<Provider>)
    ensures
        v@ == chain(),
{
    let v = vec![Provider::Lrclib, Provider::NetEase, Provider::Megalobiz, Provider::Genius];
    assert(v@ =~= chain());
    v
}

/// LRCLIB is asked before every other provider of the chain, each is asked
/// once, and Musixmatch is none of them.
pub proof fn the_chain_starts_with_lrclib()
    ensures
        chain()[0] == Provider::Lrclib,
        chain().no_duplicates(),
        !chain().contains(Provider::Musixmatch),
{
}

/// Whether a user may switch a provider off. LRCLIB is also the exact lookup,
/// and Musixmatch has its own switch.
pub open spec fn switchable(p: Provider) -> bool {
    p == Provider::NetEase || p == Provider::Megalobiz || p == Provider::Genius
}

/// Whether a user may switch a provider off.
pub fn is_switchable(provider: Provider) -> (r: bool)
    ensures
        r == switchable(provider),
{
    matches!(provider, Provider::NetEase | Provider::Megalobiz | Provider::Genius)
}

/// The list of strings that a JSON text holds, as `serde_json` reads it, if it
/// holds one.
pub uninterp spec fn json_string_list(raw: Seq<char>) -> Option<Seq<Seq<char>>>;

/// What an optional list of strings holds.
pub open spec fn opt_texts(o: Option<Vec<String>>) -> Option<Seq<Seq<char>>> {
    match o {
        Some(v) => Some(text::texts(v@)),
        None => None,
    }
}

/// `serde_json::from_str` into a list of strings: the list that the text holds,
/// or nothing when the text is not such a list.
#[verifier::external_body]
fn parse_string_list(raw: &str) -> (r: Option<Vec<String>>)
    ensures
        opt_texts(r) == json_string_list(raw@),
{
    serde_json::from_str::<Vec<String>>(raw).ok()
}

/// Whether a provider is in a list.
pub fn list_has_provider(v: &Vec<Provider>, p: Provider) -> (r: bool)
    ensures
        r == v@.contains(p),
{
    let mut i: usize = 0;
    while i < v.len()
        invariant
            i <= v@.len(),
            forall|j: int| 0 <= j < i ==> v@[j] != p,
        decreases v@.len() - i,
    {
        if v[i] == p {
            assert(v@[i as int] == p);
            return true;
        }
        i = i + 1;
    }
    false
}

/// The providers that a list of names switches off: known, and switchable.
pub open spec fn disabled_named(ids: Seq<Seq<char>>) -> Seq<Provider>
    decreases ids.len(),
{
    if ids.len() == 0 {
        Seq::empty()
    } else {
        let rest = disabled_named(ids.drop_last());
        match provider_named(ids.last()) {
            Some(p) => if switchable(p) {
                rest.push(p)
            } else {
                rest
            },
            None => rest,
        }
    }
}

/// The providers that a list of names switches off. A name that is not a
/// provider's, or one that may not be switched off, counts for nothing.
pub fn disabled_among(ids: &Vec<String>) -> (v: Vec<Provider>)
    ensures
        v@ == disabled_named(text::texts(ids@)),
{
    let mut v: Vec<Provider> = Vec::new();
    let mut i: usize = 0;
    let ghost names = text::texts(ids@);
    assert(names.take(0) =~= Seq::empty());
    while i < ids.len()
        invariant
            i <= ids@.len(),
            names == text::texts(ids@),
            v@ == disabled_named(names.take(i as int)),
        decreases ids@.len() - i,
    {
        assert(names.take(i + 1).drop_last() =~= names.take(i as int));
        assert(names.take(i + 1).last() == ids@[i as int]@);
        match Provider::from_id(ids[i].as_str()) {
            Some(p) => if is_switchable(p) {
                v.push(p);
            },
            None => {},
        }
        i = i + 1;
    }
    assert(names.take(i as int) =~= names);
    v
}

/// What a stored setting switches off: the named ones, or Genius alone when
/// nothing readable is stored.
pub open spec fn disabled_by(raw: Option<Seq<char>>) -> Seq<Provider> {
    match raw {
        None => seq![Provider::Genius],
        Some(t) => match json_string_list(t) {
            Some(ids) => disabled_named(ids),
            None => seq![Provider::Genius],
        },
    }
}

/// The text of an optional borrowed string.
pub open spec fn opt_str(o: Option<&str>) -> Option<Seq<char>> {
    match o {
        Some(s) => Some(s@),
        None => None,
    }
}

/// What a stored setting switches off.
pub fn disabled_from(raw: Option<&str>) -> (v: Vec<Provider>)
    ensures
        v@ == disabled_by(opt_str(raw)),
{
    let parsed = match raw {
        Some(t) => parse_string_list(t),
        None => None,
    };
    match parsed {
        Some(ids) => disabled_among(&ids),
        None => {
            let v = vec![Provider::Genius];
            assert(v@ =~= seq![Provider::Genius]);
            v
        },
    }
}

/// A list of providers without those of another list, order unchanged.
pub open spec fn without(all: Seq<Provider>, disabled: Seq<Provider>) -> Seq<Provider> {
    all.filter(|p: Provider| !disabled.contains(p))
}

/// The chain as a profile has configured it.
pub fn enabled_chain(disabled: &Vec<Provider>) -> (v: Vec<Provider>)
    ensures
        v@ == without(chain(), disabled@),
{
    broadcast use vstd::seq_lib::group_filter_ensures;

    let all = external_fallback_providers();
    let mut v: Vec<Provider> = Vec::new();
    let mut i: usize = 0;
    let ghost keep = |p: Provider| !disabled@.contains(p);
    assert(all@.take(0) =~= Seq::empty());
    assert(all@.take(0).filter(keep) =~= Seq::empty());
    while i < all.len()
        invariant
            i <= all@.len(),
            keep == (|p: Provider| !disabled@.contains(p)),
            v@ == all@.take(i as int).filter(keep),
        decreases all@.len() - i,
    {
        proof {
            assert(all@.take(i + 1).drop_last() =~= all@.take(i as int));
            reveal(Seq::filter);
        }
        if !list_has_provider(disabled, all[i]) {
            v.push(all[i]);
        }
        i = i + 1;
    }
    assert(all@.take(i as int) =~= all@);
    v
}

/// Whatever is stored, LRCLIB stays in the chain and leads it.
pub proof fn lrclib_cannot_be_left_out(raw: Option<Seq<char>>)
    ensures
        !disabled_by(raw).contains(Provider::Lrclib),
        without(chain(), disabled_by(raw)).len() > 0,
        without(chain(), disabled_by(raw))[0] == Provider::Lrclib,
{
    match raw {
        Some(t) => match json_string_list(t) {
            Some(ids) => {
                lemma_disabled_are_switchable(ids);
            },
            None => {},
        },
        None => {},
    }
    let d = disabled_by(raw);
    let keep = |p: Provider| !d.contains(p);
    let c = chain();
    lemma_filter_keeps_head(c, keep);
}

proof fn lemma_disabled_are_switchable(ids: Seq<Seq<char>>)
    ensures
        forall|i: int|
            0 <= i < disabled_named(ids).len() ==> switchable(#[trigger] disabled_named(ids)[i]),
    decreases ids.len(),
{
    if ids.len() > 0 {
        let rest = disabled_named(ids.drop_last());
        lemma_disabled_are_switchable(ids.drop_last());
        assert forall|i: int| 0 <= i < disabled_named(ids).len() implies switchable(
            #[trigger] disabled_named(ids)[i],
        ) by {
            if i < rest.len() {
                assert(disabled_named(ids)[i] == rest[i]);
            }
        }
    }
}

proof fn lemma_filter_keeps_head(s: Seq<Provider>, keep: spec_fn(Provider) -> bool)
    requires
        s.len() > 0,
        keep(s[0]),
    ensures
        s.filter(keep).len() > 0,
        s.filter(keep)[0] == s[0],
    decreases s.len(),
{
    reveal(Seq::filter);
    if s.len() == 1 {
        assert(s.drop_last() =~= Seq::empty());
        assert(s.drop_last().filter(keep) =~= Seq::empty());
    } else {
        lemma_filter_keeps_head(s.drop_last(), keep);
    }
}

/// The providers left when Musixmatch is not opted into.
pub open spec fn opted_in(all: Seq<Provider>, musixmatch: bool) -> Seq<Provider> {
    if musixmatch {
        all
    } else {
        all.filter(|p: Provider| p != Provider::Musixmatch)
    }
}

/// Whether Musixmatch may be asked. Off until someone opts in.
pub struct MusixmatchOptIn {
    enabled: bool,
}

impl MusixmatchOptIn {
    /// Whether Musixmatch may be asked.
    pub closed spec fn view(&self) -> bool {
        self.enabled
    }

    /// The state before anybody opted in.
    pub fn new() -> (s: Self)
        ensures
            s@ == false,
    {
        MusixmatchOptIn { enabled: false }
    }
}

/// Whether Musixmatch may be asked.
pub fn musixmatch_enabled(state: &MusixmatchOptIn) -> (r: bool)
    ensures
        r == state@,
{
    state.enabled
}

/// Opt in to Musixmatch, or out.
pub fn set_musixmatch_enabled(state: &mut MusixmatchOptIn, value: bool)
    ensures
        final(state)@ == value,
{
    state.enabled = value;
}

/// Leave Musixmatch out of a list unless it is opted into.
pub fn filter_providers(providers: &Vec<Provider>, musixmatch: bool) -> (v: Vec<Provider>)
    ensures
        v@ == opted_in(providers@, musixmatch),
{
    let ghost keep = |p: Provider| p != Provider::Musixmatch;
    let mut v: Vec<Provider> = Vec::new();
    let mut i: usize = 0;
    proof {
        reveal(Seq::filter);
        assert(providers@.take(0) =~= Seq::empty());
        assert(providers@.take(0).filter(keep) =~= Seq::empty());
    }
    while i < providers.len()
        invariant
            i <= providers@.len(),
            keep == (|p: Provider| p != Provider::Musixmatch),
            v@ == (if musixmatch {
                providers@.take(i as int)
            } else {
                providers@.take(i as int).filter(keep)
            }),
        decreases providers@.len() - i,
    {
        proof {
            assert(providers@.take(i + 1).drop_last() =~= providers@.take(i as int));
            reveal(Seq::filter);
        }
        if musixmatch || providers[i] != Provider::Musixmatch {
            v.push(providers[i]);
        }
        assert(musixmatch ==> v@ =~= providers@.take(i + 1));
        i = i + 1;
    }
    assert(providers@.take(i as int) =~= providers@);
    v
}

/// How many letters and digits stand in a row at the front.
pub open spec fn run_length(s: Seq<char>) -> nat
    decreases s.len(),
{
    if s.len() > 0 && text::is_word_char(s[0]) {
        1 + run_length(s.drop_first())
    } else {
        0
    }
}

/// The longest runs of letters and digits, in order.
pub open spec fn runs(s: Seq<char>) -> Seq<Seq<char>>
    decreases s.len(),
{
    let k = run_length(s);
    if s.len() == 0 {
        Seq::empty()
    } else if k == 0 {
        runs(s.drop_first())
    } else if k <= s.len() {
        seq![s.take(k as int)] + runs(s.skip(k as int))
    } else {
        Seq::empty()
    }
}

/// The words of a genre: its runs of letters and digits, in lower case.
pub open spec fn words_of(s: Seq<char>) -> Seq<Seq<char>> {
    runs(s).map_values(|w: Seq<char>| text::lowered(w))
}

/// Words written without anything between them.
pub open spec fn glued(ws: Seq<Seq<char>>) -> Seq<char>
    decreases ws.len(),
{
    if ws.len() == 0 {
        Seq::empty()
    } else {
        glued(ws.drop_last()) + ws.last()
    }
}

/// Whether the words from `i` up to `j` spell the target, or its plural.
pub open spec fn spells(ws: Seq<Seq<char>>, i: int, j: int, target: Seq<char>) -> bool {
    &&& 0 <= i < j <= ws.len()
    &&& (glued(ws.subrange(i, j)) == target || glued(ws.subrange(i, j)) == target + "s"@)
}

/// Whether a genre is a variant of a pattern: some words of it in a row spell
/// the pattern's words, separators aside, or that and a plural `s`. A pattern
/// without words matches nothing.
pub open spec fn is_variant(genre: Seq<char>, pattern: Seq<char>) -> bool {
    let target = glued(words_of(pattern));
    let ws = words_of(genre);
    &&& target.len() > 0
    &&& exists|i: int, j: int| #[trigger] spells(ws, i, j, target)
}

proof fn lemma_run_length(s: Seq<char>, k: int)
    requires
        0 <= k <= s.len(),
        forall|j: int| 0 <= j < k ==> text::is_word_char(s[j]),
        k < s.len() ==> !text::is_word_char(s[k]),
    ensures
        run_length(s) == k,
    decreases k,
{
    if k > 0 {
        assert forall|j: int| 0 <= j < k - 1 implies text::is_word_char(
            s.drop_first()[j],
        ) by {
            assert(s[j + 1] == s.drop_first()[j]);
        }
        lemma_run_length(s.drop_first(), k - 1);
    }
}

/// The words of a genre.
pub fn words(s: &str) -> (v: Vec<String>)
    ensures
        text::texts(v@) == words_of(s@),
{
    let c = chars_of(s);
    let mut v: Vec<String> = Vec::new();
    let mut from: usize = 0;
    let ghost lower = |w: Seq<char>| text::lowered(w);
    assert(c@.skip(0) =~= c@);
    assert(text::texts(v@) + words_of(c@) =~= words_of(c@));
    while from < c.len()
        invariant
            c@ == s@,
            from <= c@.len(),
            text::texts(v@) + words_of(c@.skip(from as int)) == words_of(s@),
        decreases c@.len() - from,
    {
        let ghost rest = c@.skip(from as int);
        let ghost done = text::texts(v@);
        let mut to: usize = from;
        while to < c.len() && c[to].is_alphanumeric()
            invariant
                from <= to <= c@.len(),
                forall|j: int| from <= j < to ==> text::is_word_char(c@[j]),
            decreases c@.len() - to,
        {
            to = to + 1;
        }
        proof {
            assert forall|j: int| 0 <= j < to - from implies text::is_word_char(
                rest[j],
            ) by {}
            lemma_run_length(rest, to - from);
        }
        if to == from {
            proof {
                assert(rest.drop_first() =~= c@.skip(from + 1));
                assert(words_of(rest) == words_of(c@.skip(from + 1)));
            }
            from = from + 1;
        } else {
            let piece = string_of(&c, from, to);
            let word = piece.as_str().to_lowercase();
            v.push(word);
            proof {
                assert(piece@ =~= rest.take(to - from));
                assert(rest.skip(to - from) =~= c@.skip(to as int));
                assert(runs(rest) =~= seq![piece@] + runs(c@.skip(to as int)));
                assert(words_of(rest) =~= seq![word@] + words_of(c@.skip(to as int)));
                assert(text::texts(v@) =~= done.push(word@));
                assert(done.push(word@) + words_of(c@.skip(to as int)) =~= done + words_of(rest));
            }
            from = to;
        }
    }
    assert(c@.skip(from as int).len() == 0);
    assert(words_of(c@.skip(from as int)) =~= Seq::empty());
    assert(text::texts(v@) + Seq::<Seq<char>>::empty() =~= text::texts(v@));
    v
}

proof fn lemma_glued_step(ws: Seq<Seq<char>>, i: int, j: int)
    requires
        0 <= i <= j < ws.len(),
    ensures
        glued(ws.subrange(i, j + 1)) == glued(ws.subrange(i, j)) + ws[j],
{
    assert(ws.subrange(i, j + 1).drop_last() =~= ws.subrange(i, j));
}

proof fn lemma_glued_grows(ws: Seq<Seq<char>>, i: int, j: int, k: int)
    requires
        0 <= i <= j <= k <= ws.len(),
    ensures
        glued(ws.subrange(i, j)).len() <= glued(ws.subrange(i, k)).len(),
    decreases k - j,
{
    if j < k {
        lemma_glued_step(ws, i, k - 1);
        lemma_glued_grows(ws, i, j, k - 1);
    }
}

fn concat_words(ws: &Vec<String>) -> (s: String)
    ensures
        s@ == glued(text::texts(ws@)),
{
    let ghost t = text::texts(ws@);
    let mut s = String::new();
    let mut i: usize = 0;
    assert(t.subrange(0, 0) =~= Seq::empty());
    while i < ws.len()
        invariant
            i <= ws@.len(),
            t == text::texts(ws@),
            s@ == glued(t.subrange(0, i as int)),
        decreases ws@.len() - i,
    {
        proof {
            lemma_glued_step(t, 0, i as int);
        }
        s.append(ws[i].as_str());
        i = i + 1;
    }
    assert(t.subrange(0, i as int) =~= t);
    s
}

/// Whether a genre is a variant of a pattern.
pub fn genre_matches(genre: &str, pattern: &str) -> (r: bool)
    ensures
        r == is_variant(genre@, pattern@),
{
    let target = concat_words(&words(pattern));
    if target.as_str().is_empty() {
        return false;
    }
    let plural = target.clone().concat("s");
    let limit: usize = chars_of(plural.as_str()).len();
    let ws = words(genre);
    let ghost t = text::texts(ws@);
    assert(t.len() == ws@.len());
    let mut start: usize = 0;
    while start < ws.len()
        invariant
            t == text::texts(ws@),
            t == words_of(genre@),
            t.len() == ws@.len(),
            target@ == glued(words_of(pattern@)),
            target@.len() > 0,
            plural@ == target@ + "s"@,
            limit == plural@.len(),
            start <= ws@.len(),
            forall|i: int, j: int| i < start ==> !(#[trigger] spells(t, i, j, target@)),
        decreases ws@.len() - start,
    {
        let mut run = String::new();
        let mut end: usize = start;
        assert(t.subrange(start as int, start as int) =~= Seq::empty());
        while end < ws.len()
            invariant
                t == text::texts(ws@),
                t == words_of(genre@),
                t.len() == ws@.len(),
                target@ == glued(words_of(pattern@)),
                target@.len() > 0,
                plural@ == target@ + "s"@,
                limit == plural@.len(),
                start < ws@.len(),
                start <= end <= ws@.len(),
                run@ == glued(t.subrange(start as int, end as int)),
                forall|j: int| j <= end ==> !(#[trigger] spells(t, start as int, j, target@)),
            ensures
                forall|j: int| !(#[trigger] spells(t, start as int, j, target@)),
            decreases ws@.len() - end,
        {
            proof {
                lemma_glued_step(t, start as int, end as int);
            }
            run.append(ws[end].as_str());
            let ghost spelled = run@;
            if same_text(run.as_str(), target.as_str()) || same_text(
                run.as_str(),
                plural.as_str(),
            ) {
                assert(spells(t, start as int, end + 1, target@));
                return true;
            }
            end = end + 1;
            if chars_of(run.as_str()).len() > limit {
                assert forall|j: int| !(#[trigger] spells(t, start as int, j, target@)) by {
                    if end <= j <= t.len() {
                        lemma_glued_grows(t, start as int, end as int, j);
                    }
                }
                break;
            }
        }
        assert forall|i: int, j: int| i < start + 1 implies !(#[trigger] spells(
            t,
            i,
            j,
            target@,
        )) by {}
        start = start + 1;
    }
    assert forall|i: int, j: int| !(#[trigger] spells(t, i, j, target@)) by {}
    false
}

/// Whether some pattern takes in a genre.
pub open spec fn excluded(genre: Seq<char>, patterns: Seq<Seq<char>>) -> bool {
    exists|k: int| 0 <= k < patterns.len() && is_variant(genre, #[trigger] patterns[k])
}

fn is_excluded(genre: &str, patterns: &Vec<String>) -> (r: bool)
    ensures
        r == excluded(genre@, text::texts(patterns@)),
{
    let ghost t = text::texts(patterns@);
    let mut k: usize = 0;
    while k < patterns.len()
        invariant
            t == text::texts(patterns@),
            k <= patterns@.len(),
            forall|j: int| 0 <= j < k ==> !is_variant(genre@, #[trigger] t[j]),
        decreases patterns@.len() - k,
    {
        assert(t[k as int] == patterns@[k as int]@);
        if genre_matches(genre, patterns[k].as_str()) {
            return true;
        }
        k = k + 1;
    }
    false
}

/// Whether any of a track's genres is excluded.
pub fn any_genre_excluded(genres: &[&str], patterns: &Vec<String>) -> (r: bool)
    ensures
        r == (exists|i: int|
            0 <= i < genres@.len() && excluded(
                (#[trigger] genres@[i])@,
                text::texts(patterns@),
            )),
{
    first_excluded_genre(genres, patterns).is_some()
}

/// The first of a track's genres that is excluded, as the track spells it.
pub fn first_excluded_genre<'a>(genres: &[&'a str], patterns: &Vec<String>) -> (r: Option<&'a str>)
    ensures
        match r {
            Some(g) => exists|i: int|
                0 <= i < genres@.len() && genres@[i] == g && excluded(
                    (#[trigger] genres@[i])@,
                    text::texts(patterns@),
                ) && (forall|j: int|
                    0 <= j < i ==> !excluded((#[trigger] genres@[j])@, text::texts(patterns@))),
            None => forall|j: int|
                0 <= j < genres@.len() ==> !excluded(
                    (#[trigger] genres@[j])@,
                    text::texts(patterns@),
                ),
        },
{
    let mut i: usize = 0;
    while i < genres.len()
        invariant
            i <= genres@.len(),
            forall|j: int|
                0 <= j < i ==> !excluded((#[trigger] genres@[j])@, text::texts(patterns@)),
        decreases genres@.len() - i,
    {
        if is_excluded(genres[i], patterns) {
            assert(excluded(genres@[i as int]@, text::texts(patterns@)));
            return Some(genres[i]);
        }
        i = i + 1;
    }
    None
}

/// The genres that are excluded when nothing readable is stored.
pub open spec fn default_excluded() -> Seq<Seq<char>> {
    seq!["Instrumental"@, "Lo-fi"@]
}

/// What a stored setting excludes.
pub open spec fn excluded_by(raw: Option<Seq<char>>) -> Seq<Seq<char>> {
    match raw {
        None => default_excluded(),
        Some(t) => match json_string_list(t) {
            Some(genres) => genres,
            None => default_excluded(),
        },
    }
}

/// The genre patterns that a stored setting excludes.
pub fn excluded_from(raw: Option<&str>) -> (v: Vec<String>)
    ensures
        text::texts(v@) == excluded_by(opt_str(raw)),
{
    let parsed = match raw {
        Some(t) => parse_string_list(t),
        None => None,
    };
    match parsed {
        Some(genres) => genres,
        None => {
            let v = vec!["Instrumental".to_owned(), "Lo-fi".to_owned()];
            assert(text::texts(v@) =~= default_excluded());
            v
        },
    }
}

/// Where the run at the front ends.
proof fn lemma_run_ends(s: Seq<char>)
    ensures
        run_length(s) <= s.len(),
        forall|j: int| 0 <= j < run_length(s) ==> text::is_word_char(#[trigger] s[j]),
        run_length(s) < s.len() ==> !text::is_word_char(s[run_length(s) as int]),
    decreases s.len(),
{
    if s.len() > 0 && text::is_word_char(s[0]) {
        let rest = s.drop_first();
        lemma_run_ends(rest);
        assert forall|j: int| 0 <= j < run_length(s) implies text::is_word_char(
            #[trigger] s[j],
        ) by {
            if j > 0 {
                assert(rest[j - 1] == s[j]);
            }
        }
    }
}

/// A separator parts the runs before it from those behind it.
proof fn lemma_runs_part(a: Seq<char>, x: char, b: Seq<char>)
    requires
        !text::is_word_char(x),
    ensures
        runs(a.push(x) + b) == runs(a) + runs(b),
    decreases a.len(),
{
    let s = a.push(x) + b;
    lemma_run_ends(a);
    let k = run_length(a) as int;
    if a.len() == 0 {
        assert(s.drop_first() =~= b);
    } else if k == 0 {
        lemma_runs_part(a.drop_first(), x, b);
        assert(s.drop_first() =~= a.drop_first().push(x) + b);
    } else {
        lemma_run_length(s, k);
        lemma_runs_part(a.skip(k), x, b);
        assert(s.skip(k) =~= a.skip(k).push(x) + b);
        assert(s.take(k) =~= a.take(k));
        assert(runs(s) =~= runs(a) + runs(b));
    }
}

/// Separators hold no run.
proof fn lemma_separators_part(a: Seq<char>, sep: Seq<char>, b: Seq<char>)
    requires
        sep.len() > 0,
        is_separator(sep),
    ensures
        runs(a + sep + b) == runs(a) + runs(b),
    decreases sep.len(),
{
    let rest = sep.drop_first();
    assert(a + sep + b =~= a.push(sep[0]) + (rest + b));
    lemma_runs_part(a, sep[0], rest + b);
    if rest.len() == 0 {
        assert(rest + b =~= b);
    } else {
        assert forall|i: int| 0 <= i < rest.len() implies !text::is_word_char(
            #[trigger] rest[i],
        ) by {
            assert(sep[i + 1] == rest[i]);
        }
        lemma_separators_part(Seq::empty(), rest, b);
        assert(Seq::<char>::empty() + rest + b =~= rest + b);
        assert(runs(Seq::<char>::empty()) + runs(b) =~= runs(b));
    }
}

/// Text between others that no word runs into keeps its words.
proof fn lemma_runs_between(before: Seq<char>, s: Seq<char>, after: Seq<char>)
    requires
        before.len() > 0 ==> !text::is_word_char(before.last()),
        after.len() > 0 ==> !text::is_word_char(after[0]),
    ensures
        runs(before + s + after) == runs(before) + runs(s) + runs(after),
{
    let none = Seq::<char>::empty();
    let inner = s + after;
    assert(runs(inner) == runs(s) + runs(after)) by {
        if after.len() > 0 {
            let rest = after.drop_first();
            lemma_runs_part(s, after[0], rest);
            assert(s.push(after[0]) + rest =~= inner);
            lemma_runs_part(none, after[0], rest);
            assert(none.push(after[0]) + rest =~= after);
            assert(runs(none) + runs(rest) =~= runs(rest));
        } else {
            assert(inner =~= s);
            assert(runs(s) + runs(after) =~= runs(s));
        }
    }
    assert(before + s + after =~= before + inner);
    if before.len() > 0 {
        let rest = before.drop_last();
        lemma_runs_part(rest, before.last(), inner);
        assert(rest.push(before.last()) + inner =~= before + inner);
        lemma_runs_part(rest, before.last(), none);
        assert(rest.push(before.last()) + none =~= before);
        assert(runs(rest) + runs(none) =~= runs(rest));
    } else {
        assert(before + inner =~= inner);
    }
    assert(runs(before) + (runs(s) + runs(after)) =~= runs(before) + runs(s) + runs(after));
}

/// Words around a genre never undo a match, where something parts them from it.
pub proof fn words_around_never_undo_a_match(
    before: Seq<char>,
    genre: Seq<char>,
    after: Seq<char>,
    pattern: Seq<char>,
)
    requires
        before.len() > 0 ==> !text::is_word_char(before.last()),
        after.len() > 0 ==> !text::is_word_char(after[0]),
        is_variant(genre, pattern),
    ensures
        is_variant(before + genre + after, pattern),
{
    let target = glued(words_of(pattern));
    let ws = words_of(genre);
    let (i, j) = choose|i: int, j: int| #[trigger] spells(ws, i, j, target);
    lemma_runs_between(before, genre, after);
    let pre = words_of(before);
    let all = words_of(before + genre + after);
    assert(all =~= pre + ws + words_of(after));
    assert(all.subrange(pre.len() + i, pre.len() + j) =~= ws.subrange(i, j));
    assert(spells(all, pre.len() + i, pre.len() + j, target));
}

/// Among other words, whatever they are, a genre that matches still does.
pub proof fn a_genre_among_others_matches(
    a: Seq<char>,
    genre: Seq<char>,
    b: Seq<char>,
    pattern: Seq<char>,
)
    requires
        is_variant(genre, pattern),
    ensures
        is_variant(a + " "@ + genre + " / "@ + b, pattern),
{
    reveal_strlit(" ");
    reveal_strlit(" / ");
    let before = a + " "@;
    let after = " / "@ + b;
    assert(before.last() == ' ');
    assert(after[0] == ' ');
    words_around_never_undo_a_match(before, genre, after, pattern);
    assert(before + genre + after =~= a + " "@ + genre + " / "@ + b);
}

/// Whether a text is all separators: no letter and no digit stands in it.
pub open spec fn is_separator(s: Seq<char>) -> bool {
    forall|i: int| 0 <= i < s.len() ==> !text::is_word_char(#[trigger] s[i])
}

/// Which separators part the words of a pattern does not matter, nor whether any stand
/// around them.
pub proof fn any_separators_will_do(
    genre: Seq<char>,
    a: Seq<char>,
    b: Seq<char>,
    one: Seq<char>,
    other: Seq<char>,
)
    requires
        one.len() > 0,
        other.len() > 0,
        is_separator(one),
        is_separator(other),
    ensures
        is_variant(genre, a + one + b) == is_variant(genre, a + other + b),
        is_variant(genre, one + a + other) == is_variant(genre, a),
{
    lemma_separators_part(a, one, b);
    lemma_separators_part(a, other, b);
    lemma_runs_between(one, a, other);
    let none = Seq::<char>::empty();
    lemma_separators_part(none, one, none);
    lemma_separators_part(none, other, none);
    assert(none + one + none =~= one);
    assert(none + other + none =~= other);
    assert(runs(none) + runs(none) =~= runs(none));
    assert(runs(none) + runs(a) + runs(none) =~= runs(a));
}

/// The letters and digits of a text alone.
pub open spec fn bare(s: Seq<char>) -> Seq<char> {
    s.filter(|c: char| text::is_word_char(c))
}

proof fn lemma_glued_front(w: Seq<char>, ws: Seq<Seq<char>>)
    ensures
        glued(seq![w] + ws) == w + glued(ws),
    decreases ws.len(),
{
    let all = seq![w] + ws;
    if ws.len() == 0 {
        assert(all.drop_last() =~= Seq::empty());
        assert(glued(all.drop_last()) == Seq::<char>::empty());
        assert(all.last() == w);
        assert(glued(all) =~= w + glued(ws));
    } else {
        lemma_glued_front(w, ws.drop_last());
        assert(all.drop_last() =~= seq![w] + ws.drop_last());
        assert(glued(all) =~= w + glued(ws));
    }
}

proof fn lemma_bare_run(s: Seq<char>)
    requires
        forall|i: int| 0 <= i < s.len() ==> text::is_word_char(#[trigger] s[i]),
    ensures
        bare(s) == s,
    decreases s.len(),
{
    reveal(Seq::filter);
    if s.len() > 0 {
        assert forall|i: int| 0 <= i < s.len() - 1 implies text::is_word_char(
            #[trigger] s.drop_last()[i],
        ) by {
            assert(s.drop_last()[i] == s[i]);
        }
        lemma_bare_run(s.drop_last());
        assert(text::is_word_char(s[s.len() - 1]));
        assert(bare(s) =~= s);
    }
}

/// What an ASCII pattern spells: its letters and digits, in lower case.
proof fn lemma_glued_ascii(s: Seq<char>)
    requires
        vstd::utf8::is_ascii_chars(s),
    ensures
        glued(words_of(s)) == text::ascii_lowercase(bare(s)),
    decreases s.len(),
{
    let keep = |c: char| text::is_word_char(c);
    let k = run_length(s) as int;
    lemma_run_ends(s);
    reveal(Seq::filter);
    if s.len() == 0 {
        assert(glued(words_of(s)) =~= text::ascii_lowercase(bare(s)));
    } else if k == 0 {
        let head = seq![s[0]];
        let rest = s.drop_first();
        assert forall|i: int| 0 <= i < rest.len() implies '\0' <= #[trigger] rest[i] <= '\u{7f}' by {
            assert(s[i + 1] == rest[i]);
        }
        lemma_glued_ascii(rest);
        assert(s =~= head + rest);
        Seq::filter_distributes_over_add(head, rest, keep);
        assert(head.drop_last() =~= Seq::empty());
        assert(head.drop_last().filter(keep) =~= Seq::empty());
        assert(head.filter(keep) =~= Seq::empty());
        assert(bare(s) =~= bare(rest));
    } else {
        let head = s.take(k);
        let rest = s.skip(k);
        assert forall|i: int| 0 <= i < rest.len() implies '\0' <= #[trigger] rest[i] <= '\u{7f}' by {
            assert(s[i + k] == rest[i]);
        }
        assert forall|i: int| 0 <= i < head.len() implies '\0' <= #[trigger] head[i] <= '\u{7f}' by {
            assert(s[i] == head[i]);
        }
        lemma_glued_ascii(rest);
        assert(s =~= head + rest);
        Seq::filter_distributes_over_add(head, rest, keep);
        assert forall|i: int| 0 <= i < head.len() implies text::is_word_char(
            #[trigger] head[i],
        ) by {
            assert(s[i] == head[i]);
        }
        lemma_bare_run(head);
        assert(words_of(s) =~= seq![text::lowered(head)] + words_of(rest));
        lemma_glued_front(text::lowered(head), words_of(rest));
        assert(text::ascii_lowercase(bare(s)) =~= text::ascii_lowercase(head)
            + text::ascii_lowercase(bare(rest)));
    }
}

/// Separators and case of a pattern in ASCII do not matter: two patterns with the same
/// letters and digits, but for case, match the same genres. So `lo-fi`, `Lo Fi` and
/// `lofi` do.
pub proof fn separators_and_case_do_not_matter(genre: Seq<char>, p: Seq<char>, q: Seq<char>)
    requires
        vstd::utf8::is_ascii_chars(p),
        vstd::utf8::is_ascii_chars(q),
        text::same_ignoring_ascii_case(bare(p), bare(q)),
    ensures
        is_variant(genre, p) == is_variant(genre, q),
{
    lemma_glued_ascii(p);
    lemma_glued_ascii(q);
}

/// An empty list is a choice: it excludes nothing and switches nothing off. A
/// text that is no list means the default, as does no text at all.
pub proof fn an_empty_list_is_a_choice(raw: Seq<char>, genre: Seq<char>)
    ensures
        json_string_list(raw) == Some(Seq::<Seq<char>>::empty()) ==> {
            &&& excluded_by(Some(raw)).len() == 0
            &&& disabled_by(Some(raw)).len() == 0
            &&& !excluded(genre, excluded_by(Some(raw)))
        },
        json_string_list(raw) is None ==> {
            &&& excluded_by(Some(raw)) == excluded_by(None)
            &&& disabled_by(Some(raw)) == disabled_by(None)
        },
{
}

/// What is known of each provider's health.
pub struct ProviderHealth {
    entries: Vec<Health>,
}

/// One provider's health.
#[derive(Clone, Copy, PartialEq, Eq, Debug, Structural)]
pub struct Health {
    /// Until when, on the process's clock, the provider is left alone.
    pub down_until: Option<u64>,
    /// Whether a failure of it was already reported loudly.
    pub warned: bool,
}

/// How loudly a failure is logged.
#[derive(Clone, Copy, PartialEq, Eq, Debug, Structural)]
pub enum Loudness {
    Warn,
    Debug,
}

/// What is told of a provider.
pub enum HealthEvent {
    /// It failed at this time; `transport` where it could not be reached.
    Failed { provider: Provider, transport: bool, at: u64 },
    /// It answered.
    Answered { provider: Provider },
}

/// The health of a provider that nothing was told of.
pub open spec fn fresh() -> Health {
    Health { down_until: None, warned: false }
}

/// A provider's health after one more thing was told.
pub open spec fn after_event(h: Health, event: HealthEvent, p: Provider) -> Health {
    match event {
        HealthEvent::Failed { provider, transport, at } => if provider != p {
            h
        } else if transport {
            Health { down_until: Some((at + COOLDOWN_MS) as u64), warned: true }
        } else {
            Health { warned: true, ..h }
        },
        HealthEvent::Answered { provider } => if provider != p {
            h
        } else {
            Health { down_until: None, ..h }
        },
    }
}

spec fn slot_of(p: Provider) -> int {
    match p {
        Provider::Musixmatch => 0,
        Provider::Lrclib => 1,
        Provider::NetEase => 2,
        Provider::Megalobiz => 3,
        Provider::Genius => 4,
    }
}

fn slot(provider: Provider) -> (r: usize)
    ensures
        r == slot_of(provider),
{
    match provider {
        Provider::Musixmatch => 0,
        Provider::Lrclib => 1,
        Provider::NetEase => 2,
        Provider::Megalobiz => 3,
        Provider::Genius => 4,
    }
}

impl ProviderHealth {
    /// There is a record for each provider.
    pub closed spec fn wf(&self) -> bool {
        self.entries@.len() == 5
    }

    /// A provider's health.
    pub closed spec fn of(&self, p: Provider) -> Health {
        self.entries@[slot_of(p)]
    }

    /// Every provider is up and unreported.
    pub fn new() -> (h: Self)
        ensures
            h.wf(),
            forall|p: Provider| #[trigger] h.of(p) == fresh(),
    {
        let fresh = Health { down_until: None, warned: false };
        ProviderHealth { entries: vec![fresh, fresh, fresh, fresh, fresh] }
    }
}

/// A provider failed to answer. One that could not be reached sits out a while;
/// the first failure of each is logged loudly.
pub fn record_failure(
    state: &mut ProviderHealth,
    provider: Provider,
    transport: bool,
    now: u64,
) -> (r: Loudness)
    requires
        old(state).wf(),
        now <= u64::MAX - COOLDOWN_MS,
    ensures
        final(state).wf(),
        forall|p: Provider| #[trigger]
            final(state).of(p) == after_event(
                old(state).of(p),
                HealthEvent::Failed { provider, transport, at: now },
                p,
            ),
        r == (if old(state).of(provider).warned {
            Loudness::Debug
        } else {
            Loudness::Warn
        }),
{
    let i: usize = slot(provider);
    let entry = state.entries[i];
    let down_until = if transport {
        Some(now + COOLDOWN_MS)
    } else {
        entry.down_until
    };
    state.entries.set(i, Health { down_until, warned: true });
    if entry.warned {
        Loudness::Debug
    } else {
        Loudness::Warn
    }
}

/// A provider answered, which ends its rest.
pub fn record_answer(state: &mut ProviderHealth, provider: Provider)
    requires
        old(state).wf(),
    ensures
        final(state).wf(),
        forall|p: Provider| #[trigger]
            final(state).of(p) == after_event(
                old(state).of(p),
                HealthEvent::Answered { provider },
                p,
            ),
{
    let i: usize = slot(provider);
    let warned = state.entries[i].warned;
    state.entries.set(i, Health { down_until: None, warned });
}

/// Whether a provider is sitting out.
pub fn is_cooling_down(state: &ProviderHealth, provider: Provider, now: u64) -> (r: bool)
    requires
        state.wf(),
    ensures
        r == cooling(state.of(provider), now),
{
    match state.entries[slot(provider)].down_until {
        Some(until) => now < until,
        None => false,
    }
}

/// Whether a provider is sitting out at a time.
pub open spec fn cooling(h: Health, now: u64) -> bool {
    h.down_until matches Some(until) && now < until
}

/// Who is asked for a track's lyrics.
#[derive(PartialEq, Eq, Debug)]
pub struct Asked {
    pub providers: Vec<Provider>,
    /// Whether one that would be asked sits out, so that nothing found is no verdict.
    pub partial: bool,
}

/// Those of a list that do not sit out at a time, order unchanged.
pub open spec fn awake(all: Seq<Provider>, state: ProviderHealth, now: u64) -> Seq<Provider> {
    all.filter(|p: Provider| !cooling(state.of(p), now))
}

/// Who of the chain is asked for a track's lyrics: nobody where the track's genre is
/// excluded, and otherwise those that are neither switched off nor sitting out.
pub fn providers_to_ask(
    disabled: &Vec<Provider>,
    excluded_genre: bool,
    state: &ProviderHealth,
    now: u64,
) -> (r: Asked)
    requires
        state.wf(),
    ensures
        r.providers@ == (if excluded_genre {
            seq![]
        } else {
            awake(without(chain(), disabled@), *state, now)
        }),
        r.partial <==> !excluded_genre && exists|p: Provider|
            #[trigger] without(chain(), disabled@).contains(p) && cooling(state.of(p), now),
{
    broadcast use vstd::seq_lib::group_filter_ensures;

    let mut providers: Vec<Provider> = Vec::new();
    let mut partial = false;
    if excluded_genre {
        assert(providers@ =~= seq![]);
        return Asked { providers, partial };
    }
    let all = enabled_chain(disabled);
    let ghost keep = |p: Provider| !cooling(state.of(p), now);
    let mut i: usize = 0;
    assert(all@.take(0) =~= Seq::empty());
    assert(all@.take(0).filter(keep) =~= Seq::empty());
    while i < all.len()
        invariant
            i <= all@.len(),
            state.wf(),
            keep == (|p: Provider| !cooling(state.of(p), now)),
            providers@ == all@.take(i as int).filter(keep),
            partial <==> exists|k: int|
                0 <= k < i && cooling(state.of(#[trigger] all@[k]), now),
        decreases all@.len() - i,
    {
        proof {
            assert(all@.take(i + 1).drop_last() =~= all@.take(i as int));
            reveal(Seq::filter);
        }
        if is_cooling_down(state, all[i], now) {
            assert(cooling(state.of(all@[i as int]), now));
            partial = true;
        } else {
            providers.push(all[i]);
        }
        i = i + 1;
    }
    proof {
        assert(all@.take(i as int) =~= all@);
        if partial {
            let k = choose|k: int| 0 <= k < i && cooling(state.of(#[trigger] all@[k]), now);
            assert(all@.contains(all@[k]));
        }
        if exists|p: Provider| #[trigger] all@.contains(p) && cooling(state.of(p), now) {
            let p = choose|p: Provider| #[trigger] all@.contains(p) && cooling(state.of(p), now);
            let k = choose|k: int| 0 <= k < all@.len() && all@[k] == p;
            assert(cooling(state.of(all@[k]), now));
        }
    }
    Asked { providers, partial }
}

/// A provider that is switched off or sits out is never asked, and every other one of
/// the chain is.
pub proof fn who_is_off_is_never_asked(
    disabled: Seq<Provider>,
    state: ProviderHealth,
    now: u64,
    p: Provider,
)
    ensures
        awake(without(chain(), disabled), state, now).contains(p) <==> chain().contains(p)
            && !disabled.contains(p) && !cooling(state.of(p), now),
{
    let on = |q: Provider| !disabled.contains(q);
    let up = |q: Provider| !cooling(state.of(q), now);
    lemma_filter_members(chain(), on, p);
    lemma_filter_members(chain().filter(on), up, p);
}

proof fn lemma_filter_members(s: Seq<Provider>, keep: spec_fn(Provider) -> bool, p: Provider)
    ensures
        s.filter(keep).contains(p) <==> s.contains(p) && keep(p),
    decreases s.len(),
{
    reveal(Seq::filter);
    if s.len() > 0 {
        let rest = s.drop_last();
        lemma_filter_members(rest, keep, p);
        assert(s =~= rest.push(s.last()));
        assert(s.contains(p) <==> rest.contains(p) || s.last() == p) by {
            if s.contains(p) {
                let k = choose|k: int| 0 <= k < s.len() && s[k] == p;
                if k < rest.len() {
                    assert(rest[k] == p);
                }
            }
            if rest.contains(p) {
                let k = choose|k: int| 0 <= k < rest.len() && rest[k] == p;
                assert(s[k] == p);
            }
            if s.last() == p {
                assert(s[s.len() - 1] == p);
            }
        }
        if keep(s.last()) {
            let f = rest.filter(keep);
            let g = f.push(s.last());
            assert(s.filter(keep) == g);
            assert(g.contains(p) <==> f.contains(p) || s.last() == p) by {
                if g.contains(p) {
                    let k = choose|k: int| 0 <= k < g.len() && g[k] == p;
                    if k < f.len() {
                        assert(f[k] == p);
                    }
                }
                if f.contains(p) {
                    let k = choose|k: int| 0 <= k < f.len() && f[k] == p;
                    assert(g[k] == p);
                }
                if s.last() == p {
                    assert(g[f.len() as int] == p);
                }
            }
        }
    }
}

/// A provider's health after all that was told, the latest last.
pub open spec fn health_after(told: Seq<HealthEvent>, p: Provider) -> Health
    decreases told.len(),
{
    if told.len() == 0 {
        fresh()
    } else {
        after_event(health_after(told.drop_last(), p), told.last(), p)
    }
}

/// The provider that an event tells of.
pub open spec fn told_of(event: HealthEvent) -> Provider {
    match event {
        HealthEvent::Failed { provider, .. } => provider,
        HealthEvent::Answered { provider } => provider,
    }
}

/// Whether an event tells that a provider could not be reached.
pub open spec fn is_outage(event: HealthEvent, p: Provider) -> bool {
    event matches HealthEvent::Failed { provider, transport, .. } && provider == p && transport
}

/// Whether the `k`-th event is the last one to tell that a provider could not be
/// reached, with no answer of it since.
pub open spec fn last_outage(told: Seq<HealthEvent>, p: Provider, k: int) -> bool {
    &&& 0 <= k < told.len()
    &&& is_outage(told[k], p)
    &&& forall|j: int|
        k < j < told.len() ==> !is_outage(#[trigger] told[j], p) && told[j]
            != (HealthEvent::Answered { provider: p })
}

/// When an event happened, where that is told.
pub open spec fn time_of(event: HealthEvent) -> int {
    match event {
        HealthEvent::Failed { at, .. } => at as int,
        HealthEvent::Answered { .. } => 0,
    }
}

/// Whatever was told, a provider sits out exactly where it could not be reached after
/// its last answer, and less than the cooldown has gone by since the last time. A
/// failure of a provider that was reached starts no rest, an answer ends it at once, and
/// what is told of others changes nothing.
pub proof fn a_provider_rests_after_its_last_outage(told: Seq<HealthEvent>, p: Provider, now: u64)
    requires
        forall|k: int| 0 <= k < told.len() ==> time_of(#[trigger] told[k]) <= u64::MAX - COOLDOWN_MS,
    ensures
        cooling(health_after(told, p), now) <==> exists|k: int| #[trigger]
            last_outage(told, p, k) && now < time_of(told[k]) + 600_000,
        COOLDOWN_MS == 600_000,
{
    lemma_down_until(told, p);
    let h = health_after(told, p);
    if h.down_until is Some {
        let k = choose|k: int| #[trigger]
            last_outage(told, p, k) && h.down_until == Some(
                (time_of(told[k]) + COOLDOWN_MS) as u64,
            );
        assert(time_of(told[k]) <= u64::MAX - COOLDOWN_MS);
        assert forall|m: int| #[trigger] last_outage(told, p, m) implies m == k by {
            if m < k {
                assert(is_outage(told[k], p));
            } else if k < m {
                assert(is_outage(told[m], p));
            }
        }
    }
}

/// A provider is down until the cooldown has gone by since its last outage.
proof fn lemma_down_until(told: Seq<HealthEvent>, p: Provider)
    ensures
        health_after(told, p).down_until is Some <==> exists|k: int| #[trigger]
            last_outage(told, p, k),
        health_after(told, p).down_until is Some ==> exists|k: int| #[trigger]
            last_outage(told, p, k) && health_after(told, p).down_until == Some(
                (time_of(told[k]) + COOLDOWN_MS) as u64,
            ),
    decreases told.len(),
{
    if told.len() > 0 {
        let rest = told.drop_last();
        let event = told.last();
        let n = told.len() - 1;
        lemma_down_until(rest, p);
        if is_outage(event, p) {
            assert(last_outage(told, p, n));
        } else if event == (HealthEvent::Answered { provider: p }) {
            assert forall|k: int| !(#[trigger] last_outage(told, p, k)) by {
                if k < n {
                    assert(told[n] == event);
                }
            }
        } else {
            assert(health_after(told, p).down_until == health_after(rest, p).down_until);
            assert forall|k: int| #[trigger] last_outage(told, p, k) <==> last_outage(
                rest,
                p,
                k,
            ) by {
                if last_outage(told, p, k) {
                    assert(k != n);
                    assert forall|j: int| k < j < rest.len() implies !is_outage(
                        #[trigger] rest[j],
                        p,
                    ) && rest[j] != (HealthEvent::Answered { provider: p }) by {
                        assert(rest[j] == told[j]);
                    }
                }
                if last_outage(rest, p, k) {
                    assert forall|j: int| k < j < told.len() implies !is_outage(
                        #[trigger] told[j],
                        p,
                    ) && told[j] != (HealthEvent::Answered { provider: p }) by {
                        if j < n {
                            assert(rest[j] == told[j]);
                        }
                    }
                }
            }
            if health_after(rest, p).down_until is Some {
                let k = choose|k: int| #[trigger]
                    last_outage(rest, p, k) && health_after(rest, p).down_until == Some(
                        (time_of(rest[k]) + COOLDOWN_MS) as u64,
                    );
                assert(last_outage(told, p, k));
                assert(rest[k] == told[k]);
            }
        }
    }
}

/// What is told of other providers changes nothing: a provider's health is what the
/// events that tell of it make it. Of its failures the first is reported loudly, and
/// no other.
pub proof fn only_its_own_events_matter(told: Seq<HealthEvent>, p: Provider)
    ensures
        health_after(told, p) == health_after(
            told.filter(|e: HealthEvent| told_of(e) == p),
            p,
        ),
        health_after(told, p).warned <==> exists|k: int|
            0 <= k < told.len() && (#[trigger] told[k]) is Failed && told_of(told[k]) == p,
    decreases told.len(),
{
    let own = |e: HealthEvent| told_of(e) == p;
    reveal(Seq::filter);
    if told.len() > 0 {
        let rest = told.drop_last();
        only_its_own_events_matter(rest, p);
        if own(told.last()) {
            let kept = rest.filter(own).push(told.last());
            assert(told.filter(own) == kept);
            assert(kept.drop_last() =~= rest.filter(own));
        }
        if exists|k: int| 0 <= k < rest.len() && (#[trigger] rest[k]) is Failed && told_of(rest[k])
            == p {
            let k = choose|k: int|
                0 <= k < rest.len() && (#[trigger] rest[k]) is Failed && told_of(rest[k]) == p;
            assert(told[k] == rest[k]);
        }
        if exists|k: int| 0 <= k < told.len() && (#[trigger] told[k]) is Failed && told_of(told[k])
            == p {
            let k = choose|k: int|
                0 <= k < told.len() && (#[trigger] told[k]) is Failed && told_of(told[k]) == p;
            if k < rest.len() {
                assert(told[k] == rest[k]);
            } else {
                assert(told[k] == told.last());
            }
        }
    }
}

/// The providers have these names, and the chain asks them in this order.
pub proof fn providers_have_these_names(id: Seq<char>)
    ensures
        provider_id(Provider::Musixmatch) == "musixmatch"@,
        provider_id(Provider::Lrclib) == "lrclib"@,
        provider_id(Provider::NetEase) == "net_ease"@,
        provider_id(Provider::Megalobiz) == "megalobiz"@,
        provider_id(Provider::Genius) == "genius"@,
        provider_named(id) matches Some(p) ==> provider_id(p) == id,
        chain() == seq![Provider::Lrclib, Provider::NetEase, Provider::Megalobiz, Provider::Genius],
        switchable(Provider::NetEase) && switchable(Provider::Megalobiz) && switchable(
            Provider::Genius,
        ),
        !switchable(Provider::Lrclib) && !switchable(Provider::Musixmatch),
{
}

/// A stored list switches off the providers that it names, where they can be switched off,
/// and no others; without one Genius is off.
pub proof fn a_stored_list_switches_off_what_it_names(ids: Seq<Seq<char>>, p: Provider, raw: Seq<char>)
    ensures
        disabled_named(ids).contains(p) <==> ids.contains(provider_id(p)) && (p == Provider::NetEase
            || p == Provider::Megalobiz || p == Provider::Genius),
        disabled_by(None) == seq![Provider::Genius],
        json_string_list(raw) is None ==> disabled_by(Some(raw)) == seq![Provider::Genius],
        json_string_list(raw) matches Some(named) ==> disabled_by(Some(raw)) == disabled_named(named),
    decreases ids.len(),
{
    a_stored_provider_reads_back(p);
    if ids.len() > 0 {
        let rest = ids.drop_last();
        a_stored_list_switches_off_what_it_names(rest, p, raw);
        providers_have_these_names(ids.last());
        let before = disabled_named(rest);
        let now = disabled_named(ids);
        assert(ids =~= rest.push(ids.last()));
        if rest.contains(provider_id(p)) {
            let k = choose|k: int| 0 <= k < rest.len() && rest[k] == provider_id(p);
            assert(ids[k] == provider_id(p));
        }
        if ids.contains(provider_id(p)) {
            let k = choose|k: int| 0 <= k < ids.len() && ids[k] == provider_id(p);
            if k < rest.len() {
                assert(rest[k] == provider_id(p));
            } else {
                assert(ids.last() == provider_id(p));
            }
        }
        if before.contains(p) {
            let k = choose|k: int| 0 <= k < before.len() && before[k] == p;
            assert(now[k] == p);
        }
        if now.contains(p) {
            let k = choose|k: int| 0 <= k < now.len() && now[k] == p;
            if k < before.len() {
                assert(before[k] == p);
            } else {
                assert(ids[ids.len() - 1] == provider_id(p));
            }
        }
        if ids.last() == provider_id(p) && switchable(p) {
            assert(now[before.len() as int] == p);
        }
    }
}

/// Without an opt-in Musixmatch is asked of no list, and everyone else still is; with one
/// the list stays as it is.
pub proof fn only_musixmatch_waits_for_leave(all: Seq<Provider>, p: Provider)
    ensures
        opted_in(all, true) == all,
        opted_in(all, false).contains(p) <==> all.contains(p) && p != Provider::Musixmatch,
{
    lemma_filter_members(all, |q: Provider| q != Provider::Musixmatch, p);
}

/// Whole words are compared: a genre of one word matches a pattern exactly where the word is
/// what the pattern spells, or that with a plural `s`.
pub proof fn a_word_matches_as_a_whole(word: Seq<char>, pattern: Seq<char>)
    requires
        word.len() > 0,
        forall|i: int| 0 <= i < word.len() ==> text::is_word_char(#[trigger] word[i]),
        vstd::utf8::is_ascii_chars(word),
        vstd::utf8::is_ascii_chars(pattern),
        bare(pattern).len() > 0,
    ensures
        is_variant(word, pattern) <==> text::ascii_lowercase(word) == text::ascii_lowercase(
            bare(pattern),
        ) || text::ascii_lowercase(word) == text::ascii_lowercase(bare(pattern)) + "s"@,
{
    lemma_run_length(word, word.len() as int);
    let none = Seq::<char>::empty();
    assert(word.take(word.len() as int) =~= word);
    assert(word.skip(word.len() as int) =~= none);
    assert(runs(none) =~= Seq::empty());
    assert(runs(word) =~= seq![word]);
    let ws = words_of(word);
    assert(ws =~= seq![text::ascii_lowercase(word)]);
    lemma_glued_ascii(pattern);
    let target = glued(words_of(pattern));
    assert(ws.subrange(0, 1) =~= ws);
    assert(ws.drop_last() =~= Seq::empty());
    assert(glued(ws.drop_last()) =~= Seq::empty());
    assert(glued(ws) =~= text::ascii_lowercase(word));
    if is_variant(word, pattern) {
        let (i, j) = choose|i: int, j: int| #[trigger] spells(ws, i, j, target);
        assert(i == 0 && j == 1);
    }
    if glued(ws) == target || glued(ws) == target + "s"@ {
        assert(spells(ws, 0, 1, target));
    }
}

/// A pattern without letters and digits matches nothing, and a genre that one of several
/// patterns matches is excluded.
pub proof fn a_matching_pattern_excludes(
    genre: Seq<char>,
    patterns: Seq<Seq<char>>,
    k: int,
    blank: Seq<char>,
)
    requires
        is_separator(blank),
    ensures
        !is_variant(genre, blank),
        0 <= k < patterns.len() && is_variant(genre, patterns[k]) ==> excluded(genre, patterns),
        excluded(genre, patterns) ==> exists|i: int|
            0 <= i < patterns.len() && is_variant(genre, #[trigger] patterns[i]),
        excluded_by(None) == seq!["Instrumental"@, "Lo-fi"@],
{
    let none = Seq::<char>::empty();
    if blank.len() > 0 {
        lemma_separators_part(none, blank, none);
        assert(none + blank + none =~= blank);
        assert(runs(blank) =~= runs(none) + runs(none));
    }
    assert(runs(none) =~= Seq::empty());
    assert(words_of(blank) =~= Seq::empty());
    assert(glued(words_of(blank)) =~= none);
}

/// What a stored list of genres excludes is what it names.
pub proof fn a_stored_list_excludes_what_it_names(raw: Seq<char>)
    ensures
        json_string_list(raw) matches Some(genres) ==> excluded_by(Some(raw)) == genres,
        json_string_list(raw) is None ==> excluded_by(Some(raw)) == seq![
            "Instrumental"@,
            "Lo-fi"@,
        ],
{
}

/// What is stored is read as it stands, and nothing where nothing is stored.
pub proof fn stored_texts_are_read_as_they_stand(s: &str, v: Vec<String>)
    ensures
        opt_str(Some(s)) == Some(s@),
        opt_str(None::<&str>) is None,
        opt_texts(Some(v)) == Some(text::texts(v@)),
        opt_texts(None) is None,
{
}

} // verus!
