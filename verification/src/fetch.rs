//! What becomes of each source once its task has come back: one outcome per
//! source, each decided by that source's response alone.

use crate::model::{source_views, FeedData, RawFeed, RawFeedView, SourceView};
use crate::normalize::{normalize, normalized};
use crate::time::Timestamp;
use vstd::prelude::*;

verus! {

/// Why a source yielded no feed.
#[derive(Debug, PartialEq, Eq)]
pub enum FetchError {
    /// The address could not be fetched.
    Transport { url: String, cause: String },
    /// The response was fetched but is no feed.
    Parse { url: String, cause: String },
}

/// What a `FetchError` holds.
pub enum FetchErrorView {
    Transport { url: Seq<char>, cause: Seq<char> },
    Parse { url: Seq<char>, cause: Seq<char> },
}

impl View for FetchError {
    type V = FetchErrorView;

    open spec fn view(&self) -> FetchErrorView {
        match self {
            FetchError::Transport { url, cause } => FetchErrorView::Transport {
                url: url@,
                cause: cause@,
            },
            FetchError::Parse { url, cause } => FetchErrorView::Parse { url: url@, cause: cause@ },
        }
    }
}

impl FetchError {
    /// The address of the source that failed.
    pub fn url(&self) -> (url: &String)
        ensures
            url@ == match self@ {
                FetchErrorView::Transport { url, .. } => url,
                FetchErrorView::Parse { url, .. } => url,
            },
    {
        match self {
            FetchError::Transport { url, .. } => url,
            FetchError::Parse { url, .. } => url,
        }
    }
}

/// The view of a parser result.
pub open spec fn parse_view(parsed: Result<RawFeed, String>) -> Result<RawFeedView, Seq<char>> {
    match parsed {
        Ok(raw) => Ok(raw@),
        Err(cause) => Err(cause@),
    }
}

/// The view of what a request brought: the parser's result for the body
/// that came back, or the reason why none did.
pub open spec fn fetched_view(fetched: Result<Result<RawFeed, String>, String>) -> Result<
    Result<RawFeedView, Seq<char>>,
    Seq<char>,
> {
    match fetched {
        Ok(parsed) => Ok(parse_view(parsed)),
        Err(cause) => Err(cause@),
    }
}

/// What the task of one source brought back: the source's address and,
/// where a body came back, what the feed parser made of it, else the reason
/// why none did.
#[derive(Debug, PartialEq, Eq)]
pub struct Response {
    pub url: String,
    pub fetched: Result<Result<RawFeed, String>, String>,
}

/// What a `Response` holds.
pub struct ResponseView {
    pub url: Seq<char>,
    pub fetched: Result<Result<RawFeedView, Seq<char>>, Seq<char>>,
}

impl View for Response {
    type V = ResponseView;

    open spec fn view(&self) -> ResponseView {
        ResponseView { url: self.url@, fetched: fetched_view(self.fetched) }
    }
}

/// The view of an outcome.
pub open spec fn outcome_view(outcome: Result<FeedData, FetchError>) -> Result<
    SourceView,
    FetchErrorView,
> {
    match outcome {
        Ok(feed) => Ok(feed@),
        Err(error) => Err(error@),
    }
}

/// The outcome for a source whose response was parsed: its record, or a
/// parse error that carries the source's address and the parser's message.
pub open spec fn parse_outcome(
    url: Seq<char>,
    parsed: Result<RawFeedView, Seq<char>>,
    fetch_time: Timestamp,
) -> Result<SourceView, FetchErrorView> {
    match parsed {
        Ok(raw) => Ok(normalized(raw, url, fetch_time)),
        Err(cause) => Err(FetchErrorView::Parse { url, cause }),
    }
}

/// The outcome for a source: a transport error where nothing came back, else
/// what the parser's result gives.
pub open spec fn outcome_of(response: ResponseView, fetch_time: Timestamp) -> Result<
    SourceView,
    FetchErrorView,
> {
    match response.fetched {
        Ok(parsed) => parse_outcome(response.url, parsed, fetch_time),
        Err(cause) => Err(FetchErrorView::Transport { url: response.url, cause }),
    }
}

/// The outcomes of a batch of responses: one per response, in order, each
/// decided by its own response.
pub open spec fn outcomes_of(responses: Seq<ResponseView>, fetch_time: Timestamp) -> Seq<
    Result<SourceView, FetchErrorView>,
> {
    responses.map_values(|response: ResponseView| outcome_of(response, fetch_time))
}

/// Decides the outcome for a source from what the parser made of its body.
pub fn source_from_parse(url: String, parsed: Result<RawFeed, String>, fetch_time: Timestamp) -> (outcome:
    Result<FeedData, FetchError>)
    ensures
        outcome_view(outcome) == parse_outcome(url@, parse_view(parsed), fetch_time),
{
    match parsed {
        Ok(raw) => Ok(normalize(&raw, url, fetch_time)),
        Err(cause) => Err(FetchError::Parse { url, cause }),
    }
}

/// Decides the outcome for one source from what its request brought: a
/// transport error where no body came back, a parse error where the body is
/// no feed, else the record of the source.
pub fn outcome_from(
    url: String,
    fetched: Result<Result<RawFeed, String>, String>,
    fetch_time: Timestamp,
) -> (outcome: Result<FeedData, FetchError>)
    ensures
        outcome_view(outcome) == match fetched {
            Err(cause) => Err(FetchErrorView::Transport { url: url@, cause: cause@ }),
            Ok(parsed) => parse_outcome(url@, parse_view(parsed), fetch_time),
        },
        outcome_view(outcome) == outcome_of(
            ResponseView { url: url@, fetched: fetched_view(fetched) },
            fetch_time,
        ),
{
    match fetched {
        Ok(parsed) => source_from_parse(url, parsed, fetch_time),
        Err(cause) => Err(FetchError::Transport { url, cause }),
    }
}

/// The views of a batch of responses.
pub open spec fn response_views(responses: Seq<Response>) -> Seq<ResponseView> {
    responses.map_values(|response: Response| response@)
}

/// Decides the outcome of every source of a batch: one outcome per
/// response, in order. A failure of one source leaves the outcomes of the
/// others as they are.
pub fn collect_outcomes(responses: Vec<Response>, fetch_time: Timestamp) -> (outcomes: Vec<
    Result<FeedData, FetchError>,
>)
    ensures
        outcomes@.len() == responses@.len(),
        outcome_views(outcomes@) == outcomes_of(response_views(responses@), fetch_time),
{
    broadcast use vstd::std_specs::vec::axiom_spec_into_iter;

    let ghost all = responses@;
    let mut outcomes: Vec<Result<FeedData, FetchError>> = Vec::new();
    for response in it: responses
        invariant
            it.seq() == all,
            outcomes@.len() == it.index(),
            forall|j: int|
                0 <= j < it.index() ==> outcome_view(outcomes@[j]) == outcome_of(
                    all[j]@,
                    fetch_time,
                ),
    {
        outcomes.push(outcome_from(response.url, response.fetched, fetch_time));
    }
    assert(outcome_views(outcomes@) =~= outcomes_of(response_views(all), fetch_time));
    outcomes
}

/// The records of the sources that were fetched, in the order of the outcomes.
pub open spec fn successes(outcomes: Seq<Result<SourceView, FetchErrorView>>) -> Seq<SourceView> {
    outcomes.filter_map(
        |outcome: Result<SourceView, FetchErrorView>|
            match outcome {
                Ok(feed) => Some(feed),
                Err(_) => None,
            },
    )
}

/// The errors of the sources that failed, in the order of the outcomes.
pub open spec fn failures(outcomes: Seq<Result<SourceView, FetchErrorView>>) -> Seq<
    FetchErrorView,
> {
    outcomes.filter_map(
        |outcome: Result<SourceView, FetchErrorView>|
            match outcome {
                Ok(_) => None,
                Err(error) => Some(error),
            },
    )
}

/// The views of a sequence of outcomes.
pub open spec fn outcome_views(outcomes: Seq<Result<FeedData, FetchError>>) -> Seq<
    Result<SourceView, FetchErrorView>,
> {
    outcomes.map_values(|o: Result<FeedData, FetchError>| outcome_view(o))
}

/// Parts the outcomes into the feeds that were fetched and the errors of the
/// sources that failed. Where every source failed there is no feed, and the
/// run goes on with none.
pub fn split_outcomes(outcomes: Vec<Result<FeedData, FetchError>>) -> (parts: (
    Vec<FeedData>,
    Vec<FetchError>,
))
    ensures
        source_views(parts.0@) == successes(outcome_views(outcomes@)),
        parts.1@.map_values(|e: FetchError| e@) == failures(outcome_views(outcomes@)),
{
    broadcast use vstd::std_specs::vec::axiom_spec_into_iter;

    let ghost all = outcomes@;
    let mut feeds: Vec<FeedData> = Vec::new();
    let mut errors: Vec<FetchError> = Vec::new();
    assert(outcome_views(all.take(0)) =~= Seq::empty());
    for outcome in it: outcomes
        invariant
            it.seq() == all,
            source_views(feeds@) == successes(outcome_views(all.take(it.index()))),
            errors@.map_values(|e: FetchError| e@) == failures(
                outcome_views(all.take(it.index())),
            ),
    {
        let ghost done = outcome_views(all.take(it.index()));
        let ghost next = outcome_views(all.take(it.index() + 1));
        assert(next.drop_last() =~= done);
        assert(next.last() == outcome_view(outcome));
        match outcome {
            Ok(feed) => {
                let ghost so_far = feeds@;
                feeds.push(feed);
                assert(source_views(feeds@) =~= source_views(so_far) + seq![feed@]);
            },
            Err(error) => {
                let ghost so_far = errors@;
                errors.push(error);
                assert(errors@.map_values(|e: FetchError| e@) =~= so_far.map_values(
                    |e: FetchError| e@,
                ) + seq![error@]);
            },
        }
    }
    assert(all.take(all.len() as int) =~= all);
    (feeds, errors)
}

/// Isolation of sources: where two batches differ in one response only, the
/// outcome of every other source is the same in both.
pub proof fn lemma_outcomes_isolated(
    first: Seq<ResponseView>,
    second: Seq<ResponseView>,
    changed: int,
    other: int,
    fetch_time: Timestamp,
)
    requires
        first.len() == second.len(),
        0 <= other < first.len(),
        other != changed,
        forall|i: int| 0 <= i < first.len() && i != changed ==> first[i] == second[i],
    ensures
        outcomes_of(first, fetch_time).len() == first.len(),
        outcomes_of(second, fetch_time).len() == second.len(),
        outcomes_of(first, fetch_time)[other] == outcomes_of(second, fetch_time)[other],
{
}

} // verus!
