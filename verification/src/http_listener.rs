//! The OAuth redirect callback: reading the request target that the browser
//! sends to the local listener, and deciding how the listener answers it.
use vstd::prelude::*;

use crate::encoding::{form_decode, form_decoded_pairs, pairs_view};
use crate::text::owned;

verus! {

/// The error that `http` reports for text that is not a valid URI.
#[verifier::external_type_specification]
#[verifier::external_body]
pub struct ExInvalidUri(http::uri::InvalidUri);

/// What `http::Uri` parsing gives for a text: `None` when the text is not a
/// URI, else its path, query (after `?`), host and port.
pub uninterp spec fn uri_components(text: Seq<char>) -> Option<
    (Seq<char>, Option<Seq<char>>, Option<Seq<char>>, Option<u16>),
>;

/// The path of a text that parses as a URI.
pub open spec fn target_path(text: Seq<char>) -> Seq<char> {
    let c = uri_components(text).unwrap();
    c.0
}

/// The query of a text that parses as a URI.
pub open spec fn target_query(text: Seq<char>) -> Option<Seq<char>> {
    let c = uri_components(text).unwrap();
    c.1
}

/// The components of a parsed URI.
pub struct UriParts {
    pub path: String,
    pub query: Option<String>,
    pub host: Option<String>,
    pub port: Option<u16>,
}

/// The view of an optional string.
pub open spec fn opt_view(o: Option<String>) -> Option<Seq<char>> {
    match o {
        Some(s) => Some(s@),
        None => None,
    }
}

impl View for UriParts {
    type V = (Seq<char>, Option<Seq<char>>, Option<Seq<char>>, Option<u16>);

    open spec fn view(&self) -> Self::V {
        (self.path@, opt_view(self.query), opt_view(self.host), self.port)
    }
}

/// Parses a text with `http::Uri`'s `FromStr` and reads `path()`,
/// `query()`, `host()` and `port_u16()` of the result.
#[verifier::external_body]
pub(crate) fn split_uri(text: &str) -> (r: Result<UriParts, http::uri::InvalidUri>)
    ensures
        r is Ok <==> uri_components(text@) is Some,
        r matches Ok(parts) ==> parts@ == uri_components(text@)->0,
{
    match text.parse::<http::Uri>() {
        Ok(uri) => Ok(
            UriParts {
                path: uri.path().to_string(),
                query: uri.query().map(str::to_string),
                host: uri.host().map(str::to_string),
                port: uri.port_u16(),
            },
        ),
        Err(e) => Err(e),
    }
}

/// The map that collecting `(name, value)` pairs in order into a map gives:
/// a later pair for a name replaces an earlier one.
pub open spec fn pairs_map(s: Seq<(Seq<char>, Seq<char>)>) -> Map<Seq<char>, Seq<char>>
    decreases s.len(),
{
    if s.len() == 0 {
        Map::empty()
    } else {
        pairs_map(s.drop_last()).insert(s.last().0, s.last().1)
    }
}

/// A name that occurs in no pair from position `i` on leaves the map as
/// the pairs before `i` made it.
proof fn lemma_pairs_map_prefix(s: Seq<(Seq<char>, Seq<char>)>, i: int, k: Seq<char>)
    requires
        0 <= i <= s.len(),
        forall|j: int| i <= j < s.len() ==> s[j].0 != k,
    ensures
        pairs_map(s).contains_key(k) == pairs_map(s.take(i)).contains_key(k),
        pairs_map(s).contains_key(k) ==> pairs_map(s)[k] == pairs_map(s.take(i))[k],
    decreases s.len(),
{
    if i == s.len() {
        assert(s.take(i) =~= s);
    } else {
        let t = s.drop_last();
        assert(t.take(i) =~= s.take(i));
        lemma_pairs_map_prefix(t, i, k);
    }
}

/// A name has an entry in the map of the pairs exactly where some pair
/// carries it.
proof fn lemma_pairs_map_has(s: Seq<(Seq<char>, Seq<char>)>, k: Seq<char>)
    ensures
        pairs_map(s).contains_key(k) <==> exists|j: int| 0 <= j < s.len() && #[trigger] s[j].0 == k,
    decreases s.len(),
{
    if s.len() > 0 {
        let t = s.drop_last();
        lemma_pairs_map_has(t, k);
        if exists|j: int| 0 <= j < t.len() && #[trigger] t[j].0 == k {
            let j = choose|j: int| 0 <= j < t.len() && #[trigger] t[j].0 == k;
            assert(s[j].0 == k);
        }
        if exists|j: int| 0 <= j < s.len() && #[trigger] s[j].0 == k {
            let j = choose|j: int| 0 <= j < s.len() && #[trigger] s[j].0 == k;
            if j < t.len() {
                assert(t[j].0 == k);
            }
        }
    }
}

/// The views of a sequence of strings.
pub open spec fn names_view(v: Seq<String>) -> Seq<Seq<char>> {
    v.map_values(|n: String| n@)
}

/// The names of a sequence of pairs, each once, in the order in which they
/// first occur.
pub open spec fn first_names(s: Seq<(Seq<char>, Seq<char>)>) -> Seq<Seq<char>>
    decreases s.len(),
{
    if s.len() == 0 {
        seq![]
    } else {
        let f = first_names(s.drop_last());
        if f.contains(s.last().0) {
            f
        } else {
            f.push(s.last().0)
        }
    }
}

/// Query parameters of a request, looked up by name. Where a name occurs
/// more than once, the last occurrence counts.
pub struct QueryParams {
    pairs: Vec<(String, String)>,
}

impl View for QueryParams {
    type V = Map<Seq<char>, Seq<char>>;

    closed spec fn view(&self) -> Map<Seq<char>, Seq<char>> {
        pairs_map(pairs_view(self.pairs@))
    }
}

impl QueryParams {
    /// The `(name, value)` pairs the parameters were collected from, in
    /// order.
    pub closed spec fn entries(&self) -> Seq<(Seq<char>, Seq<char>)> {
        pairs_view(self.pairs@)
    }

    /// Collects `(name, value)` pairs, in order.
    pub fn from_pairs(pairs: Vec<(String, String)>) -> (r: QueryParams)
        ensures
            r.entries() == pairs_view(pairs@),
            r@ == pairs_map(pairs_view(pairs@)),
    {
        QueryParams { pairs }
    }

    /// Parameters with no entry.
    pub fn new() -> (r: QueryParams)
        ensures
            r.entries() == Seq::<(Seq<char>, Seq<char>)>::empty(),
            r@ == Map::<Seq<char>, Seq<char>>::empty(),
    {
        QueryParams { pairs: Vec::new() }
    }

    /// The value of the parameter `key`, if there is one.
    pub fn get(&self, key: &str) -> (r: Option<&String>)
        ensures
            r is Some <==> self@.contains_key(key@),
            r matches Some(v) ==> v@ == self@[key@],
    {
        let k = owned(key);
        let ghost s = pairs_view(self.pairs@);
        let mut i: usize = self.pairs.len();
        while i > 0
            invariant
                i <= self.pairs.len(),
                s == pairs_view(self.pairs@),
                k@ == key@,
                forall|j: int| i <= j < s.len() ==> s[j].0 != k@,
            decreases i,
        {
            let j = i - 1;
            if self.pairs[j].0 == k {
                proof {
                    lemma_pairs_map_prefix(s, j + 1, k@);
                    assert(s.take(j + 1).drop_last() =~= s.take(j as int));
                }
                return Some(&self.pairs[j].1);
            }
            i = j;
        }
        proof {
            lemma_pairs_map_prefix(s, 0, k@);
        }
        None
    }

    /// The names of the parameters, each once, in the order in which they
    /// first occur.
    pub fn keys(&self) -> (r: Vec<String>)
        ensures
            names_view(r@) == first_names(self.entries()),
            names_view(r@).no_duplicates(),
            names_view(r@).to_set() == self@.dom(),
    {
        let ghost s = pairs_view(self.pairs@);
        let mut r: Vec<String> = Vec::new();
        let mut i: usize = 0;
        while i < self.pairs.len()
            invariant
                i <= self.pairs.len(),
                s == pairs_view(self.pairs@),
                names_view(r@) == first_names(s.take(i as int)),
                names_view(r@).no_duplicates(),
                forall|x: Seq<char>|
                    #![trigger names_view(r@).contains(x)]
                    names_view(r@).contains(x) <==> exists|j: int|
                        0 <= j < i && #[trigger] s[j].0 == x,
            decreases self.pairs.len() - i,
        {
            let name = &self.pairs[i].0;
            let ghost before = names_view(r@);
            let mut seen = false;
            let mut k: usize = 0;
            while k < r.len()
                invariant
                    k <= r@.len(),
                    before == names_view(r@),
                    seen <==> exists|m: int| 0 <= m < k && before[m] == name@,
                decreases r@.len() - k,
            {
                let same = r[k] == *name;
                proof {
                    assert(before[k as int] == r@[k as int]@);
                }
                if same {
                    seen = true;
                }
                k = k + 1;
            }
            if !seen {
                r.push(name.clone());
                proof {
                    assert(names_view(r@) =~= before.push(name@));
                    assert forall|a: int, b: int|
                        0 <= a < names_view(r@).len() && 0 <= b < names_view(r@).len() && a != b
                        implies names_view(r@)[a] != names_view(r@)[b] by {
                        if a < before.len() && b < before.len() {
                        } else if a == before.len() {
                            assert(before.contains(before[b]));
                        } else {
                            assert(before.contains(before[a]));
                        }
                    }
                }
            }
            proof {
                assert(s[i as int].0 == name@);
                assert(s.take(i + 1).drop_last() =~= s.take(i as int));
                assert(s.take(i + 1).last() == s[i as int]);
                if seen {
                    let m = choose|m: int| 0 <= m < before.len() && before[m] == name@;
                    assert(before.contains(name@));
                }
                assert(names_view(r@) =~= first_names(s.take(i + 1)));
                assert forall|x: Seq<char>| #![trigger names_view(r@).contains(x)]
                    names_view(r@).contains(x) <==> exists|j: int|
                        0 <= j < i + 1 && #[trigger] s[j].0 == x by {
                    if names_view(r@).contains(x) {
                        let m = choose|m: int| 0 <= m < names_view(r@).len() && names_view(r@)[m] == x;
                        if m < before.len() {
                            assert(before.contains(x));
                        } else {
                            assert(s[i as int].0 == x);
                        }
                    }
                    if exists|j: int| 0 <= j < i + 1 && #[trigger] s[j].0 == x {
                        let j = choose|j: int| 0 <= j < i + 1 && #[trigger] s[j].0 == x;
                        if j < i {
                            assert(before.contains(x));
                            let m = choose|m: int| 0 <= m < before.len() && before[m] == x;
                            assert(names_view(r@)[m] == x);
                        } else if seen {
                            let m = choose|m: int| 0 <= m < before.len() && before[m] == name@;
                            assert(names_view(r@)[m] == x);
                        } else {
                            assert(names_view(r@)[before.len() as int] == x);
                        }
                    }
                }
            }
            i = i + 1;
        }
        proof {
            assert(s.take(s.len() as int) =~= s);
            assert forall|x: Seq<char>| names_view(r@).to_set().contains(x) <==> self@.dom().contains(x) by {
                lemma_pairs_map_has(s, x);
                assert(names_view(r@).contains(x) <==> exists|j: int| 0 <= j < s.len() && #[trigger] s[j].0 == x);
            }
            assert(names_view(r@).to_set() =~= self@.dom());
        }
        r
    }

    /// The number of parameters: of distinct names.
    pub fn len(&self) -> (r: usize)
        ensures
            r == self@.dom().len(),
    {
        let names = self.keys();
        proof {
            names_view(names@).unique_seq_to_set();
        }
        names.len()
    }

    /// Whether the parameter `key` is present.
    pub fn contains_key(&self, key: &str) -> (r: bool)
        ensures
            r == self@.contains_key(key@),
    {
        self.get(key).is_some()
    }
}

/// What the listener read from the accepted request: its path and query
/// parameters.
pub struct ListenResult {
    pub path: String,
    /// Query parameters parsed from the request URL, by parameter name.
    pub query: QueryParams,
}

/// The decoded pairs of an optional query text, in order, or none where
/// the target has no query.
pub open spec fn query_pairs(query: Option<Seq<char>>) -> Seq<(Seq<char>, Seq<char>)> {
    match query {
        Some(q) => form_decoded_pairs(q),
        None => seq![],
    }
}

/// The query map of an optional query text: the decoded pairs collected by
/// name, or no parameters where the target has no query.
pub open spec fn query_map(query: Option<Seq<char>>) -> Map<Seq<char>, Seq<char>> {
    match query {
        Some(q) => pairs_map(form_decoded_pairs(q)),
        None => Map::empty(),
    }
}

/// Why a request target could not be read.
#[derive(Debug)]
pub enum RequestParseError {
    /// The target is not a valid URI.
    InvalidUri(http::uri::InvalidUri),
}

impl ListenResult {
    /// The result for a request with the given path and decoded query pairs.
    pub fn from_parts(path: String, query_pairs: Vec<(String, String)>) -> (r: ListenResult)
        ensures
            r.path@ == path@,
            r.query.entries() == pairs_view(query_pairs@),
            r.query@ == pairs_map(pairs_view(query_pairs@)),
    {
        ListenResult { path, query: QueryParams::from_pairs(query_pairs) }
    }
}

/// Parses a request target (such as `/callback?code=..&state=..`) into its
/// path and query parameters.
pub fn parse_request(request_str: &str) -> (r: Result<ListenResult, RequestParseError>)
    ensures
        r is Err <==> uri_components(request_str@) is None,
        r matches Ok(res) ==> {
            &&& res.path@ == target_path(request_str@)
            &&& res.query.entries() == query_pairs(target_query(request_str@))
            &&& res.query@ == query_map(target_query(request_str@))
        },
{
    match split_uri(request_str) {
        Err(e) => Err(RequestParseError::InvalidUri(e)),
        Ok(parts) => {
            let pairs = match &parts.query {
                Some(q) => form_decode(q.as_str()),
                None => Vec::new(),
            };
            proof {
                if parts.query is None {
                    assert(pairs_view(pairs@) =~= Seq::<(Seq<char>, Seq<char>)>::empty());
                }
            }
            Ok(ListenResult::from_parts(parts.path, pairs))
        },
    }
}

/// How the listener treats one incoming request.
pub enum RequestDecision {
    /// The target could not be read; the wait ends with invalid data.
    Malformed(RequestParseError),
    /// The request is on the awaited path; it is answered and returned.
    Accept(ListenResult),
    /// The request is on another path; it is answered with 404.
    Reject(ListenResult),
}

/// Why waiting for the callback failed.
#[derive(Debug)]
pub enum ListenFailure {
    /// A request arrived whose target could not be read.
    Malformed(RequestParseError),
    /// No request on the awaited path arrived in time.
    TimedOut,
}

/// Whether a request with target `url` is the awaited one: it reads and
/// its path is `required`.
pub open spec fn is_accepted(url: Seq<char>, required: Seq<char>) -> bool {
    uri_components(url) is Some && target_path(url) == required
}

/// Whether a request with target `url` reads but is on another path.
pub open spec fn is_rejected(url: Seq<char>, required: Seq<char>) -> bool {
    uri_components(url) is Some && target_path(url) != required
}

/// Decides how to treat a request with the given target while waiting for
/// a request on `required_path`.
pub fn decide_request(url: &str, required_path: &str) -> (d: RequestDecision)
    ensures
        uri_components(url@) is None <==> d is Malformed,
        is_accepted(url@, required_path@) <==> d is Accept,
        is_rejected(url@, required_path@) <==> d is Reject,
        d matches RequestDecision::Accept(r) ==> {
            &&& r.path@ == required_path@
            &&& r.path@ == target_path(url@)
            &&& r.query@ == query_map(target_query(url@))
        },
        d matches RequestDecision::Reject(r) ==> {
            &&& r.path@ != required_path@
            &&& r.path@ == target_path(url@)
            &&& r.query@ == query_map(target_query(url@))
        },
{
    match parse_request(url) {
        Err(e) => RequestDecision::Malformed(e),
        Ok(r) => {
            let required = owned(required_path);
            if r.path == required {
                RequestDecision::Accept(r)
            } else {
                RequestDecision::Reject(r)
            }
        },
    }
}

impl RequestDecision {
    /// The HTTP status and body to answer the request with, if any: a
    /// request on the awaited path gets 200 and a note that the window may
    /// be closed, one on another path 404, a malformed one no answer.
    pub fn response(&self) -> (r: Option<(u16, &'static str)>)
        ensures
            self is Malformed <==> r is None,
            self is Accept ==> (r matches Some(p) && p.0 == 200 && p.1@
                == "You may close this window."@),
            self is Reject ==> (r matches Some(p) && p.0 == 404 && p.1@ == "404 Not Found"@),
    {
        match self {
            RequestDecision::Malformed(_) => None,
            RequestDecision::Accept(_) => Some((200, "You may close this window.")),
            RequestDecision::Reject(_) => Some((404, "404 Not Found")),
        }
    }

    /// What follows once the request was answered: an accepted request ends
    /// the wait with its result, a malformed one with that failure, and a
    /// rejected one ends it as timed out where the deadline has passed and
    /// otherwise lets the wait go on (`None`).
    pub fn after_response(self, deadline_passed: bool) -> (r: Option<
        Result<ListenResult, ListenFailure>,
    >)
        ensures
            self matches RequestDecision::Accept(res) ==> r == Some(
                Ok::<ListenResult, ListenFailure>(res),
            ),
            self matches RequestDecision::Malformed(e) ==> r == Some(
                Err::<ListenResult, ListenFailure>(ListenFailure::Malformed(e)),
            ),
            self is Reject ==> (r is None <==> !deadline_passed),
            self is Reject && deadline_passed ==> r == Some(
                Err::<ListenResult, ListenFailure>(ListenFailure::TimedOut),
            ),
    {
        match self {
            RequestDecision::Accept(res) => Some(Ok(res)),
            RequestDecision::Malformed(e) => Some(Err(ListenFailure::Malformed(e))),
            RequestDecision::Reject(_) => {
                if deadline_passed {
                    Some(Err(ListenFailure::TimedOut))
                } else {
                    None
                }
            },
        }
    }
}

/// The body of the answer to a request on the awaited path.
pub open spec fn accept_body() -> Seq<char> {
    "You may close this window."@
}

/// The body of the answer to a request on another path.
pub open spec fn reject_body() -> Seq<char> {
    "404 Not Found"@
}

/// The answer sequence of one request: its status, where it is answered.
pub open spec fn answer_seq(a: Option<(u16, &'static str)>) -> Seq<u16> {
    match a {
        Some(p) => seq![p.0],
        None => seq![],
    }
}

/// A wait for the request on the callback path: the requests read so far
/// and how they were answered. The wait ends with the first request on the
/// awaited path, with a request that does not read, or when the deadline
/// passes first (`time_out`).
pub struct CallbackWait {
    required_path: String,
    /// The targets read and the statuses answered, in order.
    log: Ghost<(Seq<Seq<char>>, Seq<u16>)>,
    finished: bool,
}

/// What one call of `CallbackWait::on_request` with target `url` does: the
/// request is recorded and answered, and the wait ends with the outcome
/// where there is one. A request on the awaited path is answered 200 and
/// ends the wait with what `parse_request` gives for it; one on another
/// path is answered 404 and the wait goes on; one that does not read ends
/// the wait unanswered.
pub open spec fn request_step(
    before: CallbackWait,
    after: CallbackWait,
    url: Seq<char>,
    answer: Option<(u16, &'static str)>,
    outcome: Option<Result<ListenResult, ListenFailure>>,
) -> bool {
    &&& after.required() == before.required()
    &&& after.targets() == before.targets().push(url)
    &&& after.answers() == before.answers() + answer_seq(answer)
    &&& after.finished() <==> outcome is Some
    &&& uri_components(url) is None ==> answer is None && (outcome matches Some(
        Err(ListenFailure::Malformed(_)),
    ))
    &&& is_accepted(url, before.required()) ==> {
        &&& answer matches Some(p) && p.0 == 200 && p.1@ == accept_body()
        &&& outcome matches Some(Ok(res)) && res.path@ == target_path(url) && res.query@
            == query_map(target_query(url))
    }
    &&& is_rejected(url, before.required()) ==> {
        &&& answer matches Some(p) && p.0 == 404 && p.1@ == reject_body()
        &&& outcome is None
    }
}

impl CallbackWait {
    /// The awaited path.
    pub closed spec fn required(&self) -> Seq<char> {
        self.required_path@
    }

    /// The targets of the requests read so far, in order.
    pub closed spec fn targets(&self) -> Seq<Seq<char>> {
        self.log@.0
    }

    /// The statuses the requests read so far were answered with, in order.
    pub closed spec fn answers(&self) -> Seq<u16> {
        self.log@.1
    }

    /// Whether the wait has ended.
    pub closed spec fn finished(&self) -> bool {
        self.finished
    }

    /// While the wait goes on, every request read was on another path and
    /// was answered 404.
    #[verifier::type_invariant]
    spec fn going_on_only_after_others(&self) -> bool {
        !self.finished ==> {
            &&& forall|i: int|
                0 <= i < self.log@.0.len() ==> is_rejected(
                    #[trigger] self.log@.0[i],
                    self.required_path@,
                )
            &&& self.log@.1 == Seq::new(self.log@.0.len(), |i: int| 404u16)
        }
    }

    /// A wait for a request on `required_path` that has read nothing yet.
    pub fn new(required_path: &str) -> (r: CallbackWait)
        ensures
            r.required() == required_path@,
            r.targets() == Seq::<Seq<char>>::empty(),
            r.answers() == Seq::<u16>::empty(),
            !r.finished(),
    {
        let ghost none_read: Seq<Seq<char>> = Seq::empty();
        let ghost none_answered: Seq<u16> = Seq::empty();
        assert(none_answered =~= Seq::new(none_read.len(), |i: int| 404u16));
        CallbackWait {
            required_path: owned(required_path),
            log: Ghost((none_read, none_answered)),
            finished: false,
        }
    }

    /// Whether the wait has ended.
    pub fn is_finished(&self) -> (r: bool)
        ensures
            r == self.finished(),
    {
        self.finished
    }

    /// Takes the request with target `url`, read while the wait goes on.
    /// Returns the answer to send, if any, and the outcome of the wait where
    /// it ends with this request (see `request_step`). Where it is the
    /// awaited one, all requests read before it were on other paths and
    /// answered 404.
    pub fn on_request(&mut self, url: &str) -> (r: (
        Option<(u16, &'static str)>,
        Option<Result<ListenResult, ListenFailure>>,
    ))
        requires
            !old(self).finished(),
        ensures
            request_step(*old(self), *final(self), url@, r.0, r.1),
            is_accepted(url@, old(self).required()) ==> {
                &&& forall|i: int|
                    0 <= i < old(self).targets().len() ==> is_rejected(
                        #[trigger] old(self).targets()[i],
                        old(self).required(),
                    )
                &&& final(self).answers() == Seq::new(
                    final(self).targets().len(),
                    |i: int| if i < old(self).targets().len() { 404u16 } else { 200u16 },
                )
            },
    {
        proof {
            use_type_invariant(&*self);
        }
        let d = decide_request(url, self.required_path.as_str());
        let answer = d.response();
        let outcome = d.after_response(false);
        let ghost old_answers = self.log@.1;
        let ghost new_targets = self.log@.0.push(url@);
        let ghost new_answers = self.log@.1 + answer_seq(answer);
        self.finished = outcome.is_some();
        proof {
            if !self.finished {
                assert forall|i: int| 0 <= i < new_targets.len() implies is_rejected(
                    #[trigger] new_targets[i],
                    self.required_path@,
                ) by {
                    if i < new_targets.len() - 1 {
                        assert(new_targets[i] == old(self).log@.0[i]);
                    }
                }
                assert(new_answers =~= Seq::new(new_targets.len(), |i: int| 404u16));
            }
            if is_accepted(url@, self.required_path@) {
                assert(new_answers =~= Seq::new(
                    new_targets.len(),
                    |i: int| if i < old_answers.len() { 404u16 } else { 200u16 },
                ));
            }
        }
        self.log = Ghost((new_targets, new_answers));
        (answer, outcome)
    }

    /// Ends the wait as timed out: the deadline passed before a request on
    /// the awaited path was read. No request is read or answered.
    pub fn time_out(&mut self) -> (r: Result<ListenResult, ListenFailure>)
        requires
            !old(self).finished(),
        ensures
            final(self).finished(),
            final(self).required() == old(self).required(),
            final(self).targets() == old(self).targets(),
            final(self).answers() == old(self).answers(),
            r matches Err(ListenFailure::TimedOut),
    {
        self.finished = true;
        Err(ListenFailure::TimedOut)
    }
}

/// Requests on other paths, taken one after the other by a fresh wait,
/// are each answered 404 and keep the wait going.
proof fn lemma_rejected_prefix(
    waits: Seq<CallbackWait>,
    urls: Seq<Seq<char>>,
    answers: Seq<Option<(u16, &'static str)>>,
    outcomes: Seq<Option<Result<ListenResult, ListenFailure>>>,
    j: int,
    k: int,
)
    requires
        0 <= k <= j < urls.len(),
        waits.len() == j + 2,
        answers.len() == j + 1,
        outcomes.len() == j + 1,
        waits[0].targets() == Seq::<Seq<char>>::empty(),
        waits[0].answers() == Seq::<u16>::empty(),
        forall|m: int|
            0 <= m <= j ==> request_step(
                #[trigger] waits[m],
                waits[m + 1],
                urls[m],
                answers[m],
                outcomes[m],
            ),
        forall|i: int| 0 <= i < j ==> is_rejected(#[trigger] urls[i], waits[0].required()),
    ensures
        waits[k].required() == waits[0].required(),
        waits[k].targets() == urls.take(k),
        waits[k].answers() == Seq::new(k as nat, |i: int| 404u16),
        forall|i: int|
            0 <= i < k ==> (#[trigger] answers[i] matches Some(p) && p.0 == 404 && p.1@
                == reject_body()) && outcomes[i] is None && !waits[i + 1].finished(),
    decreases k,
{
    if k == 0 {
        assert(urls.take(0) =~= Seq::<Seq<char>>::empty());
        assert(waits[0].answers() =~= Seq::new(0nat, |i: int| 404u16));
    } else {
        lemma_rejected_prefix(waits, urls, answers, outcomes, j, k - 1);
        assert(request_step(waits[k - 1], waits[k], urls[k - 1], answers[k - 1], outcomes[k - 1]));
        assert(is_rejected(urls[k - 1], waits[0].required()));
        assert(waits[k].targets() =~= urls.take(k));
        assert(waits[k].answers() =~= Seq::new(k as nat, |i: int| 404u16));
    }
}

/// The first request on the awaited path ends the wait. Where a fresh wait
/// takes the requests with targets `urls` one after the other (each step
/// as `on_request` makes it), the requests before the `j`-th are all on
/// other paths and the `j`-th is on the awaited path: every earlier request
/// was answered 404 with "404 Not Found" and the wait went on; the `j`-th
/// was answered 200 with "You may close this window." and the wait ended
/// with what `parse_request` gives for it, so no later request is read; the
/// answers given are 404 for each earlier request and 200 for it.
pub proof fn lemma_first_accepted_wins(
    waits: Seq<CallbackWait>,
    urls: Seq<Seq<char>>,
    answers: Seq<Option<(u16, &'static str)>>,
    outcomes: Seq<Option<Result<ListenResult, ListenFailure>>>,
    j: int,
)
    requires
        0 <= j < urls.len(),
        waits.len() == j + 2,
        answers.len() == j + 1,
        outcomes.len() == j + 1,
        waits[0].targets() == Seq::<Seq<char>>::empty(),
        waits[0].answers() == Seq::<u16>::empty(),
        forall|k: int|
            0 <= k <= j ==> request_step(
                #[trigger] waits[k],
                waits[k + 1],
                urls[k],
                answers[k],
                outcomes[k],
            ),
        forall|i: int| 0 <= i < j ==> is_rejected(#[trigger] urls[i], waits[0].required()),
        is_accepted(urls[j], waits[0].required()),
    ensures
        forall|i: int|
            0 <= i < j ==> (#[trigger] answers[i] matches Some(p) && p.0 == 404 && p.1@
                == reject_body()) && outcomes[i] is None && !waits[i + 1].finished(),
        answers[j] matches Some(p) && p.0 == 200 && p.1@ == accept_body(),
        outcomes[j] matches Some(Ok(res)) && res.path@ == waits[0].required() && res.path@
            == target_path(urls[j]) && res.query@ == query_map(target_query(urls[j])),
        waits[j + 1].finished(),
        waits[j + 1].targets() == urls.take(j + 1),
        waits[j + 1].answers() == Seq::new((j + 1) as nat, |i: int| if i < j { 404u16 } else { 200u16 }),
{
    lemma_rejected_prefix(waits, urls, answers, outcomes, j, j);
    let w = waits[j];
    let w1 = waits[j + 1];
    assert(request_step(waits[j], waits[j + 1], urls[j], answers[j], outcomes[j]));
    assert(w1.targets() =~= urls.take(j + 1));
    assert(w1.answers() =~= Seq::new((j + 1) as nat, |i: int| if i < j { 404u16 } else { 200u16 }));
}

} // verus!
