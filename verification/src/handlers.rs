//! Requests: what a caller asks of the matcher.

use crate::matching::{all_in_range, effective_limit, is_listing, MentorMatcher};
use crate::models::{mentor_views, result_views, MatchResult, MatchingRequest};
use crate::ranking::least;
use vstd::prelude::*;

verus! {

/// The number of candidates asked for where a request names none.
pub const DEFAULT_LIMIT: usize = 5;

/// The limit that a request asks for: its own, or 5 where it names none.
pub open spec fn requested_limit(limit: Option<usize>) -> int {
    match limit {
        Some(n) => n as int,
        None => 5,
    }
}

/// Answers a request with the best candidates for its learner, best first:
/// as many as the request asks for, but at least 1 and at most 20, and no
/// more than it names.
pub fn match_mentors(request: &MatchingRequest) -> (out: Vec<MatchResult>)
    ensures
        out@.len() == least(
            effective_limit(requested_limit(request.limit)),
            request.mentors@.len() as int,
        ),
        out@.len() <= 20,
        exists|order: Seq<usize>|
            is_listing(
                request.learner@,
                mentor_views(request.mentors@),
                order,
                result_views(out@),
            ),
        all_in_range(result_views(out@)),
{
    let matcher: MentorMatcher = MentorMatcher::new();
    let limit: usize = match request.limit {
        Some(n) => n,
        None => DEFAULT_LIMIT,
    };
    matcher.find_matches(&request.learner, request.mentors.as_slice(), limit)
}

} // verus!
