//! Signing in through the browser: the address that is opened, and what comes
//! back of it.

use vstd::prelude::*;
use vstd::string::StringExecFns;

use crate::error;
use crate::error::AppError;
use crate::text;
use crate::text::{around, chars_of, index_from, same_text, string_of, strip_end};

verus! {

/// Where the answer of the browser is awaited.
pub const CALLBACK_ADDR: &'static str = "127.0.0.1:49388";

/// Where the browser is sent with its answer.
pub const CALLBACK_URL: &'static str = "http://127.0.0.1:49388/wf/callback";

/// How long the answer is awaited, in seconds.
pub const CALLBACK_TIMEOUT_SECS: u64 = 180;

// The address that is opened.

/// What `url::form_urlencoded::Serializer` makes of two pairs of a name and a
/// value, one after the other.
pub uninterp spec fn form_query(
    first_name: Seq<char>,
    first_value: Seq<char>,
    second_name: Seq<char>,
    second_value: Seq<char>,
) -> Seq<char>;

/// `url::form_urlencoded::Serializer::append_pair`, for two pairs: the result is a
/// function of the two names and the two values.
#[verifier::external_body]
fn encode_query(
    first_name: &str,
    first_value: &str,
    second_name: &str,
    second_value: &str,
) -> (r: String)
    ensures
        r@ == form_query(first_name@, first_value@, second_name@, second_value@),
{
    url::form_urlencoded::Serializer::new(String::new())
        .append_pair(first_name, first_value)
        .append_pair(second_name, second_value)
        .finish()
}

/// The address that the browser opens, by what stands after its question mark.
pub open spec fn login_address(web_url: Seq<char>, query: Seq<char>) -> Seq<char> {
    text::stripped_end(web_url, '/') + "/desktop-login?"@ + query
}

/// The address that the browser opens, by what stands after its question mark.
pub fn login_url_with(web_url: &str, query: &str) -> (r: String)
    ensures
        r@ == login_address(web_url@, query@),
{
    around(strip_end(web_url, '/').as_str(), "/desktop-login?", query)
}

/// The address that the browser opens to sign in. There is none without the
/// address of the site.
pub fn login_url(web_url: &Option<String>, state: &str) -> (r: Result<String, AppError>)
    ensures
        match web_url {
            Some(w) => r matches Ok(u) && u@ == login_address(
                w@,
                form_query("cb"@, "http://127.0.0.1:49388/wf/callback"@, "state"@, state@),
            ),
            None => r matches Err(e) && error::says(
                e,
                "web URL is not configured; set it in Settings first"@,
            ),
        },
{
    match web_url {
        Some(w) => {
            let query = encode_query("cb", CALLBACK_URL, "state", state);
            Ok(login_url_with(w.as_str(), query.as_str()))
        },
        None => Err(
            AppError::Other("web URL is not configured; set it in Settings first".to_owned()),
        ),
    }
}

/// The address of the server, as it is opened in the browser.
pub fn server_open_login_browser(url: Option<String>) -> (r: Result<String, AppError>)
    ensures
        match url {
            Some(u) => r == Ok::<String, AppError>(u),
            None => r matches Err(e) && error::says(
                e,
                "server URL is not configured; set it in Settings first"@,
            ),
        },
{
    match url {
        Some(u) => Ok(u),
        None => Err(
            AppError::Other("server URL is not configured; set it in Settings first".to_owned()),
        ),
    }
}

/// A digit of a number to the base of sixteen, in lower case.
pub open spec fn is_hex(c: char) -> bool {
    '0' <= c <= '9' || 'a' <= c <= 'f'
}

/// `uuid::Uuid::new_v4`, written by `simple`: thirty-two digits to the base of
/// sixteen, drawn at random. Which they are is not said.
#[verifier::external_body]
fn random_uuid() -> (r: String)
    ensures
        r@.len() == 32,
        forall|i: int| 0 <= i < r@.len() ==> is_hex(#[trigger] r@[i]),
{
    uuid::Uuid::new_v4().simple().to_string()
}

/// A word that nobody else can know: two identifiers drawn at random. Which
/// digits it holds is left to chance.
pub fn random_state() -> (r: String)
    ensures
        r@.len() == 64,
        forall|i: int| 0 <= i < r@.len() ==> is_hex(#[trigger] r@[i]),
{
    let first = random_uuid();
    let second = random_uuid();
    first.concat(second.as_str())
}

// What comes back.

/// What `serde_urlencoded::from_str` reads of a query as pairs of a name and a
/// value, or why it reads none.
pub uninterp spec fn form_pairs(query: Seq<char>) -> Result<
    Seq<(Seq<char>, Seq<char>)>,
    Seq<char>,
>;

/// The texts of pairs.
pub open spec fn pair_texts(pairs: Seq<(String, String)>) -> Seq<(Seq<char>, Seq<char>)> {
    Seq::new(pairs.len(), |i: int| (pairs[i].0@, pairs[i].1@))
}

/// Whether pairs, or the reason for there being none, hold these texts.
pub open spec fn holds_pairs(
    r: Result<Vec<(String, String)>, String>,
    texts: Result<Seq<(Seq<char>, Seq<char>)>, Seq<char>>,
) -> bool {
    match (r, texts) {
        (Ok(v), Ok(t)) => pair_texts(v@) == t,
        (Err(e), Err(t)) => e@ == t,
        _ => false,
    }
}

/// `serde_urlencoded::from_str`, for pairs of a name and a value: the result is a
/// function of the query.
#[verifier::external_body]
fn decode_query(query: &str) -> (r: Result<Vec<(String, String)>, String>)
    ensures
        holds_pairs(r, form_pairs(query@)),
{
    serde_urlencoded::from_str::<Vec<(String, String)>>(query).map_err(|e| e.to_string())
}

/// What stands behind the first question mark of an address.
pub open spec fn query_of(url: Seq<char>) -> Seq<char> {
    let k = text::first_index(url, '?');
    if k < url.len() {
        url.skip(k + 1)
    } else {
        Seq::empty()
    }
}

/// What stands behind the first question mark of an address.
pub fn callback_query(url: &str) -> (r: String)
    ensures
        r@ == query_of(url@),
{
    let c = chars_of(url);
    let total: usize = c.len();
    let k: usize = index_from(&c, '?', 0);
    assert(c@.skip(0) =~= c@);
    if k < total {
        let r = string_of(&c, k + 1, total);
        assert(r@ =~= url@.skip(k + 1));
        r
    } else {
        let r = String::new();
        assert(r@ =~= Seq::<char>::empty());
        r
    }
}

/// The value of the first pair of this name.
pub open spec fn field(pairs: Seq<(Seq<char>, Seq<char>)>, name: Seq<char>) -> Option<Seq<char>>
    decreases pairs.len(),
{
    if pairs.len() == 0 {
        None
    } else {
        match field(pairs.drop_last(), name) {
            Some(v) => Some(v),
            None => if pairs.last().0 == name {
                Some(pairs.last().1)
            } else {
                None
            },
        }
    }
}

/// Whether a name means something to the sign-in.
pub open spec fn is_field(name: Seq<char>) -> bool {
    name == "token"@ || name == "state"@ || name == "error"@
}

/// The first name that means something and stands there a second time.
pub open spec fn repeated(pairs: Seq<(Seq<char>, Seq<char>)>) -> Option<Seq<char>>
    decreases pairs.len(),
{
    if pairs.len() == 0 {
        None
    } else {
        match repeated(pairs.drop_last()) {
            Some(n) => Some(n),
            None => if is_field(pairs.last().0) && field(pairs.drop_last(), pairs.last().0) is Some {
                Some(pairs.last().0)
            } else {
                None
            },
        }
    }
}

/// What the browser brought.
#[derive(PartialEq, Eq, Debug)]
pub struct CallbackQuery {
    pub token: Option<String>,
    pub state: Option<String>,
    pub error: Option<String>,
}

/// What is said of a query that cannot be read.
pub open spec fn unreadable(reason: Seq<char>) -> Seq<char> {
    "callback parse failed: "@ + reason
}

/// What the browser brought, by the pairs of its query. A name that means
/// something stands there at most once; others are passed over.
pub fn callback_fields(parsed: Result<Vec<(String, String)>, String>) -> (r: Result<
    CallbackQuery,
    AppError,
>)
    ensures
        match parsed {
            Err(e) => r matches Err(x) && error::says(x, unreadable(e@)),
            Ok(v) => match repeated(pair_texts(v@)) {
                Some(n) => r matches Err(x) && error::says(
                    x,
                    unreadable("duplicate field `"@ + n + "`"@),
                ),
                None => {
                    &&& r matches Ok(q)
                    &&& text::opt_text(q.token) == field(pair_texts(v@), "token"@)
                    &&& text::opt_text(q.state) == field(pair_texts(v@), "state"@)
                    &&& text::opt_text(q.error) == field(pair_texts(v@), "error"@)
                },
            },
        },
{
    let pairs = match parsed {
        Err(e) => return Err(AppError::Other("callback parse failed: ".to_owned().concat(e.as_str()))),
        Ok(v) => v,
    };
    let ghost texts = pair_texts(pairs@);
    let mut q = CallbackQuery { token: None, state: None, error: None };
    let mut twice: Option<String> = None;
    let mut i: usize = 0;
    let total: usize = pairs.len();
    proof {
        reveal_strlit("token");
        reveal_strlit("state");
        reveal_strlit("error");
        assert("token"@[0] == 't');
        assert("state"@[0] == 's');
        assert("error"@[0] == 'e');
        assert(texts.take(0) =~= Seq::empty());
    }
    while i < total
        invariant
            total == pairs@.len(),
            texts == pair_texts(pairs@),
            i <= total,
            "token"@[0] == 't',
            "state"@[0] == 's',
            "error"@[0] == 'e',
            text::opt_text(twice) == repeated(texts.take(i as int)),
            twice is None ==> {
                &&& text::opt_text(q.token) == field(texts.take(i as int), "token"@)
                &&& text::opt_text(q.state) == field(texts.take(i as int), "state"@)
                &&& text::opt_text(q.error) == field(texts.take(i as int), "error"@)
            },
        decreases total - i,
    {
        assert(texts.take(i + 1).drop_last() =~= texts.take(i as int));
        assert(texts.take(i + 1).last() == (pairs@[i as int].0@, pairs@[i as int].1@));
        let name = pairs[i].0.as_str();
        let value = pairs[i].1.as_str();
        if twice.is_none() {
            if same_text(name, "token") {
                if q.token.is_some() {
                    twice = Some(name.to_owned());
                } else {
                    q.token = Some(value.to_owned());
                }
            } else if same_text(name, "state") {
                if q.state.is_some() {
                    twice = Some(name.to_owned());
                } else {
                    q.state = Some(value.to_owned());
                }
            } else if same_text(name, "error") {
                if q.error.is_some() {
                    twice = Some(name.to_owned());
                } else {
                    q.error = Some(value.to_owned());
                }
            }
        }
        i = i + 1;
    }
    assert(texts.take(total as int) =~= texts);
    match twice {
        Some(n) => Err(
            AppError::Other(
                "callback parse failed: ".to_owned().concat(
                    around("duplicate field `", n.as_str(), "`").as_str(),
                ),
            ),
        ),
        None => Ok(q),
    }
}

/// What becomes of a sign-in: the token or why there is none, and the page that
/// the browser shows.
#[derive(PartialEq, Eq, Debug)]
pub struct CallbackAnswer {
    pub result: Result<String, AppError>,
    pub page: &'static str,
}

/// The page of a sign-in that succeeded.
pub const PAGE_SIGNED_IN: &'static str = "<!doctype html><title>WaveFlow</title><p>Signed in. You can close this tab and return to WaveFlow.</p>";

/// The page of a sign-in that was called off.
pub const PAGE_DENIED: &'static str = "<!doctype html><title>WaveFlow</title><p>Sign-in was cancelled or denied.</p>";

/// The page of a sign-in that this application did not ask for.
pub const PAGE_MISMATCH: &'static str = "<!doctype html><title>WaveFlow</title><p>Sign-in failed: state mismatch (possible CSRF). Try again from the desktop.</p>";

/// What becomes of a sign-in: a token is taken only along with the word that was
/// sent out, and only where no error came with it.
pub fn judge_callback(query: CallbackQuery, expected_state: &str) -> (r: CallbackAnswer)
    ensures
        match (query.error, query.token) {
            (Some(e), _) => {
                &&& r.result matches Err(x) && error::says(x, "sign-in failed: "@ + e@)
                &&& r.page@ == PAGE_DENIED@
            },
            (None, Some(t)) if text::opt_text(query.state) == Some(expected_state@) => {
                &&& r.result == Ok::<String, AppError>(t)
                &&& r.page@ == PAGE_SIGNED_IN@
            },
            _ => {
                &&& r.result matches Err(x) && error::says(x, "OAuth callback state mismatch"@)
                &&& r.page@ == PAGE_MISMATCH@
            },
        },
{
    let known = match &query.state {
        Some(s) => same_text(s.as_str(), expected_state),
        None => false,
    };
    match query.error {
        Some(e) => CallbackAnswer {
            result: Err(AppError::Other("sign-in failed: ".to_owned().concat(e.as_str()))),
            page: PAGE_DENIED,
        },
        None => {
            if known {
                if let Some(t) = query.token {
                    return CallbackAnswer { result: Ok(t), page: PAGE_SIGNED_IN };
                }
            }
            CallbackAnswer {
                result: Err(AppError::Other("OAuth callback state mismatch".to_owned())),
                page: PAGE_MISMATCH,
            }
        },
    }
}

/// The pairs of the query of an address.
pub open spec fn callback_pairs(url: Seq<char>) -> Result<Seq<(Seq<char>, Seq<char>)>, Seq<char>> {
    form_pairs(query_of(url))
}

/// Whether this is what becomes of a sign-in whose query held these pairs.
pub open spec fn is_answer(
    r: Result<CallbackAnswer, AppError>,
    pairs: Result<Seq<(Seq<char>, Seq<char>)>, Seq<char>>,
    expected_state: Seq<char>,
) -> bool {
    match pairs {
        Err(e) => r matches Err(x) && error::says(x, unreadable(e)),
        Ok(p) => match repeated(p) {
            Some(n) => r matches Err(x) && error::says(
                x,
                unreadable("duplicate field `"@ + n + "`"@),
            ),
            None => r matches Ok(a) && match (field(p, "error"@), field(p, "token"@)) {
                (Some(e), _) => {
                    &&& a.result matches Err(x) && error::says(x, "sign-in failed: "@ + e)
                    &&& a.page@ == PAGE_DENIED@
                },
                (None, Some(t)) if field(p, "state"@) == Some(expected_state) => {
                    &&& a.result matches Ok(token) && token@ == t
                    &&& a.page@ == PAGE_SIGNED_IN@
                },
                _ => {
                    &&& a.result matches Err(x) && error::says(x, "OAuth callback state mismatch"@)
                    &&& a.page@ == PAGE_MISMATCH@
                },
            },
        },
    }
}

/// What becomes of a sign-in, by the address with which the browser came back. A
/// query that cannot be read is answered with no page.
pub fn answer_callback(url: &str, expected_state: &str) -> (r: Result<CallbackAnswer, AppError>)
    ensures
        is_answer(r, callback_pairs(url@), expected_state@),
{
    let query = callback_query(url);
    match callback_fields(decode_query(query.as_str())) {
        Err(e) => Err(e),
        Ok(q) => Ok(judge_callback(q, expected_state)),
    }
}

/// What comes of waiting for the browser: nobody in time is a failure of its own.
pub fn wait_for_callback(arrived: Option<String>, expected_state: &str) -> (r: Result<
    CallbackAnswer,
    AppError,
>)
    ensures
        match arrived {
            None => r matches Err(e) && error::says(e, "sign-in timed out — try again"@),
            Some(url) => is_answer(r, callback_pairs(url@), expected_state@),
        },
{
    match arrived {
        None => Err(AppError::Other("sign-in timed out — try again".to_owned())),
        Some(url) => answer_callback(url.as_str(), expected_state),
    }
}

/// A token is taken only along with the word that was sent out, and only where no
/// error came with it.
pub proof fn no_token_without_the_word(
    r: Result<CallbackAnswer, AppError>,
    pairs: Result<Seq<(Seq<char>, Seq<char>)>, Seq<char>>,
    expected_state: Seq<char>,
)
    requires
        is_answer(r, pairs, expected_state),
    ensures
        r matches Ok(a) ==> (a.result is Ok ==> {
            &&& pairs matches Ok(p)
            &&& field(p, "state"@) == Some(expected_state)
            &&& field(p, "error"@) is None
        }),
{
}

// What holds of all of them.

/// The page to sign in is below the site, whatever slashes end the site's address.
pub proof fn slashes_behind_the_site_do_not_matter(site: Seq<char>, slashes: Seq<char>, query: Seq<char>)
    requires
        site.len() > 0,
        site.last() != '/',
        forall|i: int| 0 <= i < slashes.len() ==> #[trigger] slashes[i] == '/',
    ensures
        login_address(site + slashes, query) == site + "/desktop-login?"@ + query,
{
    let s = site + slashes;
    text::only_the_end_is_stripped(s, '/');
    let left = text::stripped_end(s, '/');
    if left.len() < site.len() {
        assert(s[site.len() - 1] == '/');
        assert(false);
    }
    if left.len() > site.len() {
        assert(left.last() == s[left.len() - 1]);
        assert(s[left.len() - 1] == slashes[left.len() - 1 - site.len()]);
        assert(false);
    }
    assert(left =~= site);
}

/// The answer is awaited where the browser is sent, for three minutes.
pub proof fn the_browser_is_sent_where_it_is_awaited()
    ensures
        CALLBACK_URL@ == "http://127.0.0.1:49388/wf/callback"@,
        CALLBACK_ADDR@ == "127.0.0.1:49388"@,
        CALLBACK_TIMEOUT_SECS == 180,
{
}

/// The query of an address is all that stands behind its first question mark.
pub proof fn a_query_begins_at_the_first_question_mark(path: Seq<char>, query: Seq<char>)
    requires
        forall|i: int| 0 <= i < path.len() ==> #[trigger] path[i] != '?',
    ensures
        query_of(path.push('?') + query) == query,
        query_of(path).len() == 0,
{
    let url = path.push('?') + query;
    assert forall|i: int| 0 <= i < path.len() implies url[i] != '?' by {
        assert(url[i] == path[i]);
    }
    text::lemma_first_index(url, '?', path.len() as int);
    text::lemma_first_index(path, '?', path.len() as int);
    assert(url.skip(path.len() as int + 1) =~= query);
}

/// The value of a name is that of the first pair with the name; a name that no pair has
/// has no value.
pub proof fn the_first_pair_of_a_name_counts(pairs: Seq<(Seq<char>, Seq<char>)>, name: Seq<char>, k: int)
    requires
        0 <= k <= pairs.len(),
        k < pairs.len() ==> pairs[k].0 == name,
        forall|j: int| 0 <= j < k ==> (#[trigger] pairs[j]).0 != name,
    ensures
        k < pairs.len() ==> field(pairs, name) == Some(pairs[k].1),
        k == pairs.len() ==> field(pairs, name) is None,
    decreases pairs.len(),
{
    if pairs.len() > 0 {
        let front = pairs.drop_last();
        assert forall|j: int| 0 <= j < k && j < front.len() implies (#[trigger] front[j]).0
            != name by {
            assert(front[j] == pairs[j]);
        }
        if k < front.len() {
            assert(front[k] == pairs[k]);
            the_first_pair_of_a_name_counts(front, name, k);
        } else {
            the_first_pair_of_a_name_counts(front, name, front.len() as int);
            if k == pairs.len() {
                assert(pairs[pairs.len() - 1].0 != name);
            }
        }
    }
}

/// A query is refused where the token, the word or the error stands there twice, for the
/// first that does; any other name may stand there as often as it likes.
pub proof fn only_what_counts_may_not_repeat(
    pairs: Seq<(Seq<char>, Seq<char>)>,
    name: Seq<char>,
    value: Seq<char>,
)
    ensures
        repeated(Seq::<(Seq<char>, Seq<char>)>::empty()) is None,
        repeated(pairs) is Some ==> repeated(pairs.push((name, value))) == repeated(pairs),
        repeated(pairs) is None && name != "token"@ && name != "state"@ && name != "error"@
            ==> repeated(pairs.push((name, value))) is None,
        repeated(pairs) is None && (name == "token"@ || name == "state"@ || name == "error"@) ==> {
            &&& (exists|i: int| 0 <= i < pairs.len() && (#[trigger] pairs[i]).0 == name)
                ==> repeated(pairs.push((name, value))) == Some(name)
            &&& (forall|i: int| 0 <= i < pairs.len() ==> (#[trigger] pairs[i]).0 != name)
                ==> repeated(pairs.push((name, value))) is None
        },
{
    assert(pairs.push((name, value)).drop_last() =~= pairs);
    if exists|i: int| 0 <= i < pairs.len() && (#[trigger] pairs[i]).0 == name {
        let i = choose|i: int| 0 <= i < pairs.len() && (#[trigger] pairs[i]).0 == name;
        lemma_a_pair_is_found(pairs, name, i);
    } else {
        the_first_pair_of_a_name_counts(pairs, name, pairs.len() as int);
    }
}

proof fn lemma_a_pair_is_found(pairs: Seq<(Seq<char>, Seq<char>)>, name: Seq<char>, i: int)
    requires
        0 <= i < pairs.len(),
        pairs[i].0 == name,
    ensures
        field(pairs, name) is Some,
    decreases pairs.len(),
{
    let front = pairs.drop_last();
    if i < front.len() {
        assert(front[i] == pairs[i]);
        lemma_a_pair_is_found(front, name, i);
    }
}

/// What becomes of a sign-in whose query can be read: an error refuses it whatever else
/// came; without one a token that comes with the word that was sent out is taken as it is;
/// and without the word or the token it is refused.
pub proof fn a_sign_in_goes_by_what_came_back(
    a: CallbackAnswer,
    pairs: Seq<(Seq<char>, Seq<char>)>,
    word: Seq<char>,
)
    requires
        is_answer(Ok(a), Ok(pairs), word),
    ensures
        repeated(pairs) is None,
        field(pairs, "error"@) is Some ==> {
            &&& a.result is Err
            &&& error::says(a.result->Err_0, "sign-in failed: "@ + field(pairs, "error"@)->0)
            &&& a.page@
                == "<!doctype html><title>WaveFlow</title><p>Sign-in was cancelled or denied.</p>"@
        },
        field(pairs, "error"@) is None && field(pairs, "token"@) is Some && field(pairs, "state"@)
            == Some(word) ==> {
            &&& a.result is Ok
            &&& a.result->Ok_0@ == field(pairs, "token"@)->0
            &&& a.page@
                == "<!doctype html><title>WaveFlow</title><p>Signed in. You can close this tab and return to WaveFlow.</p>"@
        },
        field(pairs, "error"@) is None && (field(pairs, "token"@) is None || field(pairs, "state"@)
            != Some(word)) ==> {
            &&& a.result is Err
            &&& error::says(a.result->Err_0, "OAuth callback state mismatch"@)
            &&& a.page@
                == "<!doctype html><title>WaveFlow</title><p>Sign-in failed: state mismatch (possible CSRF). Try again from the desktop.</p>"@
        },
{
}

/// A sign-in whose query cannot be read, or names a thing twice, comes to an error that
/// says so; any other is answered.
pub proof fn an_unreadable_query_is_no_answer(
    r: Result<CallbackAnswer, AppError>,
    pairs: Result<Seq<(Seq<char>, Seq<char>)>, Seq<char>>,
    word: Seq<char>,
)
    requires
        is_answer(r, pairs, word),
    ensures
        pairs is Err ==> r is Err && error::says(
            r->Err_0,
            "callback parse failed: "@ + pairs->Err_0,
        ),
        pairs is Ok && repeated(pairs->Ok_0) is Some ==> r is Err && error::says(
            r->Err_0,
            "callback parse failed: "@ + ("duplicate field `"@ + repeated(pairs->Ok_0)->0 + "`"@),
        ),
        pairs is Ok && repeated(pairs->Ok_0) is None ==> r is Ok,
{
}

/// What comes back is read off the query of the address, pair by pair.
pub proof fn an_answer_is_read_off_its_address(url: Seq<char>, pairs: Seq<(String, String)>)
    ensures
        callback_pairs(url) == form_pairs(query_of(url)),
        pair_texts(pairs).len() == pairs.len(),
        forall|i: int|
            0 <= i < pairs.len() ==> #[trigger] pair_texts(pairs)[i] == (pairs[i].0@, pairs[i].1@),
{
}

/// The word that is sent out is made of digits to the base of sixteen.
pub proof fn the_word_is_made_of_these(c: char)
    ensures
        is_hex(c) <==> ('0' <= c <= '9' || 'a' <= c <= 'f'),
{
}

} // verus!
