//! Building the generation request from the resolved answers: the request
//! path that the action step selects, and the percent-encoded query string.

use crate::steps::{items_view, Item, ItemKind, ItemKindView, ItemView, Step, StepKind, StepKindView, StepView};
use crate::encoding::{encoded_text, percent_encode};
use crate::text::push_char;
use vstd::prelude::*;

verus! {

/// A step together with the answer resolved for it. For a multi-choice step
/// the answer is the chosen ids joined by commas.
#[derive(Debug, PartialEq, Eq)]
pub struct ResponseStep {
    pub step: Step,
    pub response: String,
}

/// Mathematical model of a [`ResponseStep`].
pub struct ResponseStepView {
    pub step: StepView,
    pub response: Seq<char>,
}

impl View for ResponseStep {
    type V = ResponseStepView;

    open spec fn view(&self) -> ResponseStepView {
        ResponseStepView { step: self.step@, response: self.response@ }
    }
}

impl Clone for ResponseStep {
    fn clone(&self) -> (r: Self)
        ensures
            r@ == self@,
    {
        ResponseStep { step: self.step.clone(), response: self.response.clone() }
    }
}

/// The models of a sequence of responses, in order.
pub open spec fn responses_view(rs: Seq<ResponseStep>) -> Seq<ResponseStepView> {
    rs.map_values(|r: ResponseStep| r@)
}

/// Why no request could be built.
#[derive(Debug, Clone, Copy, PartialEq, Eq, Structural)]
pub enum BuildError {
    /// No response to an action step selects an action item.
    MissingActionStep,
    /// The base URL, or the action path against it, is not a valid URL.
    InvalidUrl,
}

/// The action path of the first item of `values` whose id is `id`, when that
/// item is an action item.
pub open spec fn action_of(values: Seq<ItemView>, id: Seq<char>) -> Option<Seq<char>>
    decreases values.len(),
{
    if values.len() == 0 {
        None
    } else if values[0].id == id {
        match values[0].kind {
            ItemKindView::Action(a) => Some(a),
            _ => None,
        }
    } else {
        action_of(values.drop_first(), id)
    }
}

/// The request path that a single response selects, if it is the response to
/// an action step naming one of that step's action items.
pub open spec fn selected_action(r: ResponseStepView) -> Option<Seq<char>> {
    match r.step.kind {
        StepKindView::Action { values, .. } => action_of(values, r.response),
        _ => None,
    }
}

/// The request path: the one that the first selecting response selects.
pub open spec fn url_path_of(rs: Seq<ResponseStepView>) -> Option<Seq<char>>
    decreases rs.len(),
{
    if rs.len() == 0 {
        None
    } else {
        match selected_action(rs[0]) {
            Some(a) => Some(a),
            None => url_path_of(rs.drop_first()),
        }
    }
}

fn find_action<'a>(values: &'a Vec<Item>, id: &String) -> (r: Option<&'a String>)
    ensures
        match r {
            Some(a) => action_of(items_view(values@), id@) == Some(a@),
            None => action_of(items_view(values@), id@) is None,
        },
{
    let n = values.len();
    let mut i: usize = 0;
    assert(items_view(values@).subrange(0, n as int) =~= items_view(values@));
    while i < n
        invariant
            0 <= i <= n == values@.len(),
            action_of(items_view(values@), id@) == action_of(
                items_view(values@).subrange(i as int, n as int),
                id@,
            ),
        decreases n - i,
    {
        let ghost rest = items_view(values@).subrange(i as int, n as int);
        assert(rest.drop_first() =~= items_view(values@).subrange(i + 1, n as int));
        assert(rest[0] == values@[i as int]@);
        if values[i].id == *id {
            return match &values[i].kind {
                ItemKind::Action(a) => Some(a),
                _ => None,
            };
        }
        i = i + 1;
    }
    None
}

/// The request path selected by the action step's response: the `action` of
/// the item that the response names, looked up in that step's own items.
pub fn get_url_path(responses: &[ResponseStep]) -> (r: Option<&str>)
    ensures
        match r {
            Some(p) => url_path_of(responses_view(responses@)) == Some(p@),
            None => url_path_of(responses_view(responses@)) is None,
        },
{
    let n = responses.len();
    let ghost rs = responses_view(responses@);
    let mut i: usize = 0;
    assert(rs.subrange(0, n as int) =~= rs);
    while i < n
        invariant
            0 <= i <= n == responses@.len(),
            rs == responses_view(responses@),
            url_path_of(rs) == url_path_of(rs.subrange(i as int, n as int)),
        decreases n - i,
    {
        let ghost rest = rs.subrange(i as int, n as int);
        assert(rest.drop_first() =~= rs.subrange(i + 1, n as int));
        assert(rest[0] == responses@[i as int]@);
        let r = &responses[i];
        match &r.step.kind {
            StepKind::Action { values, .. } => match find_action(values, &r.response) {
                Some(a) => {
                    return Some(a.as_str());
                },
                None => {},
            },
            _ => {},
        }
        i = i + 1;
    }
    None
}

/// Whether a response becomes a query parameter: it is not empty. The
/// action step's answer is sent too, since several action items may share
/// one path.
pub open spec fn in_query(r: ResponseStepView) -> bool {
    r.response.len() > 0
}

/// The parameter `name=value` of a response, both percent-encoded.
pub open spec fn query_pair(r: ResponseStepView) -> Seq<char> {
    encoded_text(r.step.name) + seq!['='] + encoded_text(r.response)
}

/// The query string of the responses: their parameters in order, joined by
/// `&`.
pub open spec fn query_of(rs: Seq<ResponseStepView>) -> Seq<char>
    decreases rs.len(),
{
    if rs.len() == 0 {
        Seq::empty()
    } else {
        let q = query_of(rs.drop_last());
        if !in_query(rs.last()) {
            q
        } else if q.len() == 0 {
            query_pair(rs.last())
        } else {
            q + seq!['&'] + query_pair(rs.last())
        }
    }
}

/// Builds the query string: one `name=value` pair for each non-empty
/// response, in order, joined by `&`,
/// names and values percent-encoded with spaces as `%20`.
pub fn query_string(responses: &[ResponseStep]) -> (r: String)
    ensures
        r@ == query_of(responses_view(responses@)),
{
    let n = responses.len();
    let ghost rs = responses_view(responses@);
    let mut out = String::new();
    let mut i: usize = 0;
    assert(rs.subrange(0, 0) =~= Seq::<ResponseStepView>::empty());
    while i < n
        invariant
            0 <= i <= n == responses@.len(),
            rs == responses_view(responses@),
            out@ == query_of(rs.subrange(0, i as int)),
        decreases n - i,
    {
        assert(rs.subrange(0, i + 1).drop_last() =~= rs.subrange(0, i as int));
        assert(rs.subrange(0, i + 1).last() == responses@[i as int]@);
        let r = &responses[i];
        if !r.response.as_str().is_empty() {
            if !out.as_str().is_empty() {
                push_char(&mut out, '&');
            }
            let name = percent_encode(r.step.name.as_str());
            out.append(name.as_str());
            push_char(&mut out, '=');
            let value = percent_encode(r.response.as_str());
            out.append(value.as_str());
            assert(out@ =~= query_of(rs.subrange(0, i + 1)));
        }
        i = i + 1;
    }
    assert(rs.subrange(0, n as int) =~= rs);
    out
}

/// Declares `url::ParseError`, the error of `Url::parse` and `Url::join`, so
/// that the wrapper below can hand it back.
#[verifier::external_type_specification]
#[verifier::external_body]
pub struct ExUrlParseError(url::ParseError);

/// The serialised URL that `url::Url::join` gives for `path` against the
/// parsed `base`; `None` where either step is refused.
pub uninterp spec fn joined_url(base: Seq<char>, path: Seq<char>) -> Option<Seq<char>>;

/// Relies on `url::Url::parse` and `url::Url::join`: `path` resolved against
/// `base`, serialised; the result depends on the two strings alone.
#[verifier::external_body]
fn join_url(base: &str, path: &str) -> (r: Result<String, url::ParseError>)
    ensures
        match r {
            Ok(u) => joined_url(base@, path@) == Some(u@),
            Err(_) => joined_url(base@, path@) is None,
        },
{
    match url::Url::parse(base) {
        Ok(b) => match b.join(path) {
            Ok(u) => Ok(u.as_str().to_owned()),
            Err(e) => Err(e),
        },
        Err(e) => Err(e),
    }
}

/// `url` with the query `q` attached, or unchanged when `q` is empty.
pub open spec fn with_query(url: Seq<char>, q: Seq<char>) -> Seq<char> {
    if q.len() == 0 {
        url
    } else {
        url + seq!['?'] + q
    }
}

/// The URL of the generation request: the action path resolved against the
/// base URL, with the query string of the responses.
pub open spec fn request_url(base: Seq<char>, rs: Seq<ResponseStepView>) -> Result<
    Seq<char>,
    BuildError,
> {
    match url_path_of(rs) {
        None => Err(BuildError::MissingActionStep),
        Some(path) => match joined_url(base, path) {
            None => Err(BuildError::InvalidUrl),
            Some(u) => Ok(with_query(u, query_of(rs))),
        },
    }
}

/// Builds the URL of the generation request. The path is the one that the
/// action step's response selects, replacing the base URL's path; the query
/// holds every non-empty response, the action step's included.
pub fn build_request(base_url: &str, responses: &[ResponseStep]) -> (r: Result<String, BuildError>)
    ensures
        match r {
            Ok(u) => request_url(base_url@, responses_view(responses@)) == Ok::<
                Seq<char>,
                BuildError,
            >(u@),
            Err(e) => request_url(base_url@, responses_view(responses@)) == Err::<
                Seq<char>,
                BuildError,
            >(e),
        },
{
    let path = match get_url_path(responses) {
        Some(p) => p,
        None => return Err(BuildError::MissingActionStep),
    };
    let url = match join_url(base_url, path) {
        Ok(u) => u,
        Err(_) => return Err(BuildError::InvalidUrl),
    };
    let query = query_string(responses);
    Ok(attach_query(url, query.as_str()))
}

/// Attaches the query string `query` to `url`, after a `?`; an empty query
/// leaves the URL as it is.
pub fn attach_query(url: String, query: &str) -> (r: String)
    ensures
        r@ == with_query(url@, query@),
{
    let mut url = url;
    let ghost joined = url@;
    if !query.is_empty() {
        push_char(&mut url, '?');
        url.append(query);
        assert(url@ =~= joined + seq!['?'] + query@);
    }
    url
}

/// A response that is empty adds no parameter: inserting one anywhere among
/// the responses leaves the query string unchanged.
pub proof fn lemma_empty_response_omitted(
    rs: Seq<ResponseStepView>,
    at: int,
    extra: ResponseStepView,
)
    requires
        0 <= at <= rs.len(),
        extra.response.len() == 0,
    ensures
        query_of(rs.insert(at, extra)) == query_of(rs),
    decreases rs.len(),
{
    if at == rs.len() {
        assert(rs.insert(at, extra).drop_last() =~= rs);
    } else {
        assert(rs.insert(at, extra).drop_last() =~= rs.drop_last().insert(at, extra));
        assert(rs.insert(at, extra).last() == rs.last());
        lemma_empty_response_omitted(rs.drop_last(), at, extra);
    }
}

/// A non-empty response adds its percent-encoded pair at the end of the
/// query string.
pub proof fn lemma_response_included(rs: Seq<ResponseStepView>, extra: ResponseStepView)
    requires
        extra.response.len() > 0,
    ensures
        query_of(rs.push(extra)) == if query_of(rs).len() == 0 {
            query_pair(extra)
        } else {
            query_of(rs) + seq!['&'] + query_pair(extra)
        },
{
    assert(rs.push(extra).drop_last() =~= rs);
}

/// Without a response that selects an action item there is no request, however
/// many other steps were answered.
pub proof fn lemma_missing_action_fails(base: Seq<char>, rs: Seq<ResponseStepView>)
    requires
        forall|i: int| 0 <= i < rs.len() ==> !(#[trigger] rs[i].step.kind is Action),
    ensures
        request_url(base, rs) == Err::<Seq<char>, BuildError>(BuildError::MissingActionStep),
    decreases rs.len(),
{
    if rs.len() > 0 {
        assert(forall|i: int|
            0 <= i < rs.drop_first().len() ==> rs.drop_first()[i] == rs[i + 1]);
        lemma_missing_action_fails(base, rs.drop_first());
    }
}

} // verus!
