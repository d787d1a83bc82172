//! The names under which the auction component answers queries.

use vstd::prelude::*;
use vstd::string::StringExecFns;
use crate::text::str_equals;

verus! {

/// The package of the auction component's messages.
pub const PACKAGE: &'static str = "penumbra.core.component.auction.v1alpha1";

/// The full name of the query service.
pub const SERVICE_NAME: &'static str = "penumbra.core.component.auction.v1alpha1.QueryService";

/// The path of the query for one auction.
pub const AUCTION_STATE_BY_ID_PATH: &'static str =
    "/penumbra.core.component.auction.v1alpha1.QueryService/AuctionStateById";

/// The path of the query for a group of auctions.
pub const AUCTION_STATE_BY_IDS_PATH: &'static str =
    "/penumbra.core.component.auction.v1alpha1.QueryService/AuctionStateByIds";

/// A query that the service answers.
#[derive(Clone, Copy, Debug, PartialEq, Eq, Structural)]
pub enum QueryMethod {
    /// Get the current state of an auction by ID.
    AuctionStateById,
    /// Get the current state of a group of auctions by ID.
    AuctionStateByIds,
}

/// The query that a request path names, if it names one.
pub open spec fn spec_route(path: Seq<char>) -> Option<QueryMethod> {
    if path == AUCTION_STATE_BY_ID_PATH@ {
        Some(QueryMethod::AuctionStateById)
    } else if path == AUCTION_STATE_BY_IDS_PATH@ {
        Some(QueryMethod::AuctionStateByIds)
    } else {
        None
    }
}

/// Finds the query that a request is for by its path. A path that names
/// none is answered as unimplemented.
pub fn route(path: &str) -> (r: Option<QueryMethod>)
    ensures
        r == spec_route(path@),
{
    if str_equals(path, AUCTION_STATE_BY_ID_PATH) {
        Some(QueryMethod::AuctionStateById)
    } else if str_equals(path, AUCTION_STATE_BY_IDS_PATH) {
        Some(QueryMethod::AuctionStateByIds)
    } else {
        None
    }
}

impl QueryMethod {
    /// The path under which the query is answered.
    pub fn path(&self) -> (r: &'static str)
        ensures
            spec_route(r@) == Some(*self),
    {
        proof {
            lemma_paths_differ();
        }
        match self {
            QueryMethod::AuctionStateById => AUCTION_STATE_BY_ID_PATH,
            QueryMethod::AuctionStateByIds => AUCTION_STATE_BY_IDS_PATH,
        }
    }

    /// The name of the query within the service.
    pub fn name(&self) -> (r: &'static str)
        ensures
            r@ == (match *self {
                QueryMethod::AuctionStateById => "AuctionStateById"@,
                QueryMethod::AuctionStateByIds => "AuctionStateByIds"@,
            }),
    {
        match self {
            QueryMethod::AuctionStateById => "AuctionStateById",
            QueryMethod::AuctionStateByIds => "AuctionStateByIds",
        }
    }
}

/// The two paths are not the same.
pub proof fn lemma_paths_differ()
    ensures
        AUCTION_STATE_BY_ID_PATH@ != AUCTION_STATE_BY_IDS_PATH@,
{
    reveal_strlit("/penumbra.core.component.auction.v1alpha1.QueryService/AuctionStateById");
    reveal_strlit("/penumbra.core.component.auction.v1alpha1.QueryService/AuctionStateByIds");
    assert(AUCTION_STATE_BY_ID_PATH@.len() != AUCTION_STATE_BY_IDS_PATH@.len());
}

/// The full name of a message of the auction component: its package, a
/// dot, and its own name.
pub fn full_name(name: &str) -> (r: String)
    ensures
        r@ == PACKAGE@ + "."@ + name@,
{
    let mut r = PACKAGE.to_owned();
    r.append(".");
    r.append(name);
    r
}

} // verus!
