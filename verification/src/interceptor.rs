//! The hook that sees every request before it is served.

use crate::filename::filename_from_path;
use crate::filename::filename_of;
use crate::pending::outcome_of;
use crate::pending::pending_after;
use crate::tracker::CompletionTracker;
use crate::tracker::MatchOutcome;
use axum::http::Request;
use vstd::prelude::*;

verus! {

/// What one request turned out to be: the filename it named and what that
/// did to the pending set.
#[derive(Debug)]
pub struct Observation {
    pub filename: String,
    pub outcome: MatchOutcome,
}

impl Observation {
    /// Whether the request named a file that was not pending. Such a request
    /// is worth a line in the log and is served like any other.
    pub fn is_anomaly(&self) -> (anomaly: bool)
        ensures
            anomaly == (self.outcome == MatchOutcome::NotFound),
    {
        match self.outcome {
            MatchOutcome::NotFound => true,
            MatchOutcome::Removed => false,
        }
    }
}

/// An HTTP request as the serving layer hands it over. Nothing inside it is
/// visible here; it is only carried through.
#[verifier::external_type_specification]
#[verifier::external_body]
#[verifier::reject_recursive_types(T)]
pub struct ExRequest<T>(axum::http::Request<T>);

/// The path component of the request's URI, as `Request::uri` and
/// `Uri::path` of the `http` crate give it, copied into a string of its own.
/// Nothing is claimed of the text that comes back.
#[verifier::external_body]
fn request_path<B>(request: &Request<B>) -> (path: String) {
    request.uri().path().to_owned()
}

/// Reports the file that `request` asks for to `tracker` and hands the
/// request on as it came.
///
/// The path is whatever the request carries; what is done with it is what
/// `intercept` does with any path.
pub fn intercept_request<B>(
    tracker: &mut CompletionTracker,
    request: Request<B>,
) -> (out: (Request<B>, Observation))
    ensures
        out.0 == request,
        out.1.outcome == outcome_of(old(tracker)@, out.1.filename@),
        final(tracker)@ == pending_after(old(tracker)@, out.1.filename@),
{
    let path = request_path(&request);
    let seen = intercept(tracker, path.as_str());
    (request, seen)
}

/// Reports the file that `path` names to `tracker`.
///
/// The interceptor only watches: it has no say in whether or how the request
/// is answered, so all it hands back is what it saw.
pub fn intercept(tracker: &mut CompletionTracker, path: &str) -> (seen: Observation)
    ensures
        seen.filename@ == filename_of(path@),
        seen.outcome == outcome_of(old(tracker)@, filename_of(path@)),
        final(tracker)@ == pending_after(old(tracker)@, filename_of(path@)),
{
    let filename = filename_from_path(path);
    let outcome = tracker.observe(filename.as_str());
    Observation { filename, outcome }
}

} // verus!
