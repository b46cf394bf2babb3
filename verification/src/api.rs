//! The GraphQL side of the service: its errors, the build metadata it
//! reports, and the date range of a sitemap month.

use vstd::prelude::*;
use crate::models::NewsFeedBuildMetadata;
use crate::text::owned;

verus! {

/// The root of the GraphQL queries.
pub struct Query;

/// An error answered to a GraphQL query.
#[derive(Debug)]
pub enum GqlError {
    NotFound,
    ServerError(String),
    ErrorWithoutExtensions,
}

pub open spec fn gql_error_message(e: GqlError) -> Seq<char> {
    match e {
        GqlError::NotFound => "Could not find resource"@,
        GqlError::ServerError(_) => "ServerError"@,
        GqlError::ErrorWithoutExtensions => "No Extensions"@,
    }
}

pub open spec fn gql_error_extension(e: GqlError) -> Option<(Seq<char>, Seq<char>)> {
    match e {
        GqlError::NotFound => Some(("code"@, "NOT_FOUND"@)),
        GqlError::ServerError(reason) => Some(("reason"@, reason@)),
        GqlError::ErrorWithoutExtensions => None,
    }
}

impl GqlError {
    /// The message of the error.
    pub fn message(&self) -> (s: String)
        ensures
            s@ == gql_error_message(*self),
    {
        match self {
            GqlError::NotFound => owned("Could not find resource"),
            GqlError::ServerError(_) => owned("ServerError"),
            GqlError::ErrorWithoutExtensions => owned("No Extensions"),
        }
    }

    /// The extension set on the error: its name and value, if any.
    pub fn extension(&self) -> (r: Option<(String, String)>)
        ensures
            match r {
                Some(p) => gql_error_extension(*self) == Some((p.0@, p.1@)),
                None => gql_error_extension(*self) is None,
            },
    {
        match self {
            GqlError::NotFound => Some((owned("code"), owned("NOT_FOUND"))),
            GqlError::ServerError(reason) => Some((owned("reason"), reason.clone())),
            GqlError::ErrorWithoutExtensions => None,
        }
    }
}

/// The build metadata answered to a query: zero stands for a missing value.
#[derive(Debug, Clone, Copy, PartialEq, Eq, Structural)]
pub struct NewsFeedBuildMetadataGql {
    pub updated_at: i64,
    pub total_count: i64,
}

impl From<NewsFeedBuildMetadata> for NewsFeedBuildMetadataGql {
    fn from(metadata: NewsFeedBuildMetadata) -> (r: Self) {
        NewsFeedBuildMetadataGql {
            updated_at: match metadata.updated_at {
                Some(t) => t,
                None => 0,
            },
            total_count: match metadata.total_count {
                Some(c) => c,
                None => 0,
            },
        }
    }
}

impl vstd::std_specs::convert::FromSpecImpl<NewsFeedBuildMetadata> for NewsFeedBuildMetadataGql {
    open spec fn obeys_from_spec() -> bool {
        true
    }

    open spec fn from_spec(metadata: NewsFeedBuildMetadata) -> Self {
        NewsFeedBuildMetadataGql {
            updated_at: match metadata.updated_at {
                Some(t) => t,
                None => 0,
            },
            total_count: match metadata.total_count {
                Some(c) => c,
                None => 0,
            },
        }
    }
}

/// The months whose starts bound the sitemap of `month` of `year`: that month,
/// and the next one (January of the next year after December).
pub fn sitemap_month_range(month: i32, year: i32) -> (r: ((i32, i32), (i32, i32)))
    requires
        month == 12 ==> year < i32::MAX,
        month != 12 ==> month < i32::MAX,
    ensures
        r.0 == (month, year),
        r.1 == (if month == 12 { (1i32, (year + 1) as i32) } else { ((month + 1) as i32, year) }),
{
    let to = if month == 12 {
        (1, year + 1)
    } else {
        (month + 1, year)
    };
    ((month, year), to)
}

/// An optional `i32` as an optional `i64`.
pub fn widen_opt(v: Option<i32>) -> (r: Option<i64>)
    ensures
        r == match v {
            Some(x) => Some(x as i64),
            None => None::<i64>,
        },
{
    match v {
        Some(x) => Some(x as i64),
        None => None,
    }
}

/// The answer to a query that reads rows: the rows, or `NotFound` where
/// none could be read.
pub fn found_or_not_found<T>(rows: Option<T>) -> (r: Result<T, GqlError>)
    ensures
        match rows {
            Some(v) => r == Ok::<T, GqlError>(v),
            None => r matches Err(GqlError::NotFound),
        },
{
    match rows {
        Some(v) => Ok(v),
        None => Err(GqlError::NotFound),
    }
}

} // verus!
