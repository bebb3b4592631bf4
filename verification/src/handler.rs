//! The query handler: validates the ticker against the closed enumeration
//! and the date parameters as ISO-8601 calendar dates, derives the storage
//! location, and — once the dataset store has loaded — filters and projects.
//! Validation failures resolve here and never reach the dataset store.

use vstd::prelude::*;
use vstd::string::StringExecFns;
use crate::date::{Date, spec_parse_date, parse_date};
use crate::ticker::{TypeTicker, spec_parse_ticker, parse_ticker};
use crate::dataset::{Dataset, DateRange, spec_filter_rows, filter_date_range, lemma_filter_rows_order_preserving};
use crate::project::{ProjectedRow, spec_row_projects, project};

verus! {

/// Why a request failed.
#[derive(Clone, Copy, PartialEq, Eq, Structural, Debug)]
pub enum QueryError {
    /// The ticker parameter names nothing in the closed enumeration.
    UnknownTicker,
    /// A present date parameter is not a well-formed ISO-8601 calendar date.
    MalformedDate,
    /// An admission-control bucket was exhausted.
    RateLimited,
    /// The ticker is valid but no dataset file backs it: a deployment
    /// inconsistency, not a client fault.
    NotFoundDataset,
    /// The dataset file could not be read or decoded.
    Io,
    /// The result could not be encoded.
    Serialization,
}

impl QueryError {
    /// The client-input faults: resolved before any dataset access.
    pub open spec fn spec_is_client_error(self) -> bool {
        self == QueryError::UnknownTicker || self == QueryError::MalformedDate
    }

    /// Decides whether this error blames the client's input.
    pub fn is_client_error(&self) -> (r: bool)
        ensures
            r == self.spec_is_client_error(),
    {
        match self {
            QueryError::UnknownTicker => true,
            QueryError::MalformedDate => true,
            _ => false,
        }
    }

    /// The HTTP status an error surfaces as: client faults are 4xx,
    /// admission rejections 429, everything else a generic 500.
    pub open spec fn spec_status_code(self) -> u16 {
        match self {
            QueryError::UnknownTicker => 400,
            QueryError::MalformedDate => 400,
            QueryError::RateLimited => 429,
            QueryError::NotFoundDataset => 500,
            QueryError::Io => 500,
            QueryError::Serialization => 500,
        }
    }

    /// Returns the HTTP status code for this error.
    pub fn status_code(&self) -> (c: u16)
        ensures
            c == self.spec_status_code(),
    {
        match self {
            QueryError::UnknownTicker => 400,
            QueryError::MalformedDate => 400,
            QueryError::RateLimited => 429,
            QueryError::NotFoundDataset => 500,
            QueryError::Io => 500,
            QueryError::Serialization => 500,
        }
    }

    /// The response body text: a description of the violated constraint
    /// for client faults, and a generic message for server-side faults so
    /// no internal detail leaks.
    pub open spec fn spec_message(self) -> Seq<char> {
        match self {
            QueryError::UnknownTicker => "unknown ticker"@,
            QueryError::MalformedDate => "malformed date: expected YYYY-MM-DD"@,
            QueryError::RateLimited => "rate limit exceeded"@,
            QueryError::NotFoundDataset => "internal server error"@,
            QueryError::Io => "internal server error"@,
            QueryError::Serialization => "internal server error"@,
        }
    }

    /// Returns the human-readable message for this error.
    pub fn message(&self) -> (s: String)
        ensures
            s@ == self.spec_message(),
    {
        match self {
            QueryError::UnknownTicker => String::from_str("unknown ticker"),
            QueryError::MalformedDate => String::from_str("malformed date: expected YYYY-MM-DD"),
            QueryError::RateLimited => String::from_str("rate limit exceeded"),
            QueryError::NotFoundDataset => String::from_str("internal server error"),
            QueryError::Io => String::from_str("internal server error"),
            QueryError::Serialization => String::from_str("internal server error"),
        }
    }
}

/// A validated request: which dataset to load and how to filter it.
#[derive(Clone, Copy)]
pub struct QueryPlan {
    pub ticker: TypeTicker,
    pub range: DateRange,
}

/// What an optional date parameter denotes: absent means no bound; present
/// text must be a well-formed ISO-8601 calendar date, else the parameter is
/// malformed (`None`).
pub open spec fn spec_parse_opt_date(p: Option<Seq<char>>) -> Option<Option<Date>> {
    match p {
        None => Some(None),
        Some(s) => match spec_parse_date(s) {
            Some(d) => Some(Some(d)),
            None => None,
        },
    }
}

/// The view of an optional borrowed parameter string.
pub open spec fn spec_opt_str(o: Option<&str>) -> Option<Seq<char>> {
    match o {
        Some(s) => Some(s@),
        None => None,
    }
}

/// The outcome of validation: the ticker is checked against the closed
/// enumeration first (unknown tickers fail before any date is looked at),
/// then each present date parameter must parse.
pub open spec fn spec_validate(
    ticker: Seq<char>,
    start: Option<Seq<char>>,
    end: Option<Seq<char>>,
) -> Result<QueryPlan, QueryError> {
    match spec_parse_ticker(ticker) {
        None => Err(QueryError::UnknownTicker),
        Some(t) => match (spec_parse_opt_date(start), spec_parse_opt_date(end)) {
            (Some(sd), Some(ed)) => Ok(
                QueryPlan { ticker: t, range: DateRange { start: sd, end: ed } },
            ),
            _ => Err(QueryError::MalformedDate),
        },
    }
}

/// Validates one request's parameters. Exactly the unknown-ticker and
/// malformed-date inputs are rejected, as client errors, before any
/// dataset work; every accepted plan carries well-formed bounds.
pub fn validate_query(ticker: &str, start: Option<&str>, end: Option<&str>) -> (r: Result<
    QueryPlan,
    QueryError,
>)
    ensures
        r == spec_validate(ticker@, spec_opt_str(start), spec_opt_str(end)),
        r matches Ok(p) ==> p.range.wf(),
        r matches Err(e) ==> e.spec_is_client_error(),
{
    let t = match parse_ticker(ticker) {
        Some(t) => t,
        None => {
            return Err(QueryError::UnknownTicker);
        },
    };
    let sd = match start {
        Some(s) => match parse_date(s) {
            Some(d) => Some(d),
            None => {
                return Err(QueryError::MalformedDate);
            },
        },
        None => None,
    };
    let ed = match end {
        Some(s) => match parse_date(s) {
            Some(d) => Some(d),
            None => {
                return Err(QueryError::MalformedDate);
            },
        },
        None => None,
    };
    Ok(QueryPlan { ticker: t, range: DateRange { start: sd, end: ed } })
}

/// A ticker outside the closed enumeration is rejected as a client error,
/// whatever the date parameters: validation yields no plan, so the dataset
/// store is never consulted and no file is ever opened for such a request.
pub proof fn lemma_unknown_ticker_rejected(
    ticker: Seq<char>,
    start: Option<Seq<char>>,
    end: Option<Seq<char>>,
)
    requires
        forall|t: TypeTicker| ticker != t.spec_name(),
    ensures
        spec_validate(ticker, start, end) == Err::<QueryPlan, QueryError>(
            QueryError::UnknownTicker,
        ),
        QueryError::UnknownTicker.spec_is_client_error(),
{
    if spec_parse_ticker(ticker) is Some {
        let t = spec_parse_ticker(ticker).unwrap();
        assert(ticker == t.spec_name());
    }
}

/// The on-disk location backing a ticker, derived deterministically from
/// its canonical name: `data/parquet/<NAME>.parquet`.
pub open spec fn spec_storage_path(t: TypeTicker) -> Seq<char> {
    "data/parquet/"@ + t.spec_name() + ".parquet"@
}

/// Builds the storage path for a ticker's dataset file.
pub fn storage_path(t: &TypeTicker) -> (s: String)
    ensures
        s@ == spec_storage_path(*t),
{
    let mut s = String::from_str("data/parquet/");
    let name = t.name();
    s.append(name.as_str());
    s.append(".parquet");
    s
}

/// How the dataset store can fail, as seen by the query pipeline.
#[derive(Clone, Copy, PartialEq, Eq, Structural, Debug)]
pub enum LoadError {
    /// No file backs a syntactically valid ticker.
    NotFound,
    /// The file could not be read or decoded.
    Io,
}

/// Answers a validated query over a loaded dataset: one linear filtering
/// pass, then projection, in that order.
pub fn answer_query(d: Dataset, plan: &QueryPlan) -> (out: Vec<ProjectedRow>)
    requires
        d.wf(),
    ensures
        out@.len() == spec_filter_rows(d.rows@, plan.range).len(),
        forall|i: int|
            0 <= i < out@.len() ==> spec_row_projects(
                spec_filter_rows(d.rows@, plan.range)[i],
                #[trigger] out@[i],
            ),
{
    let filtered = filter_date_range(d, &plan.range);
    proof {
        lemma_filter_rows_order_preserving(d.rows@, plan.range);
        let idx = crate::dataset::spec_kept_indices(d.rows@, plan.range);
        assert forall|k: int|
            0 <= k < filtered.rows@.len() implies (#[trigger] filtered.rows@[k]).wf() by {
            assert(filtered.rows@[k] == d.rows@[idx[k]]);
        }
        assert(filtered.wf());
    }
    project(filtered)
}

/// Completes a request once the dataset store has answered: on a loaded
/// dataset the filtered, projected rows; a store fault surfaces as the
/// corresponding server-side error, never as a client error.
pub fn handle_loaded(loaded: Result<Dataset, LoadError>, plan: &QueryPlan) -> (r: Result<
    Vec<ProjectedRow>,
    QueryError,
>)
    requires
        loaded matches Ok(d) ==> d.wf(),
    ensures
        match loaded {
            Ok(d) => r matches Ok(rows) && rows@.len() == spec_filter_rows(
                d.rows@,
                plan.range,
            ).len() && (forall|i: int|
                0 <= i < rows@.len() ==> spec_row_projects(
                    spec_filter_rows(d.rows@, plan.range)[i],
                    #[trigger] rows@[i],
                )),
            Err(LoadError::NotFound) => r == Err::<Vec<ProjectedRow>, QueryError>(
                QueryError::NotFoundDataset,
            ),
            Err(LoadError::Io) => r == Err::<Vec<ProjectedRow>, QueryError>(QueryError::Io),
        },
        r matches Err(e) ==> !e.spec_is_client_error(),
{
    match loaded {
        Ok(d) => Ok(answer_query(d, plan)),
        Err(LoadError::NotFound) => Err(QueryError::NotFoundDataset),
        Err(LoadError::Io) => Err(QueryError::Io),
    }
}

} // verus!
