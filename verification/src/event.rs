use vstd::prelude::*;
use vstd::string::*;

use crate::text::str_eq;

verus! {

/// The kinds of webhook event that the service recognizes.
#[derive(Clone, Copy, Debug, PartialEq, Eq, Hash, Structural)]
pub enum EventName {
    PullRequest,
    PullRequestReview,
    PullRequestReviewComment,
    IssueComment,
    Issue,
    Push,
    Create,
}

/// An event identifier that names no recognized kind.
#[derive(Clone, Copy, Debug, PartialEq, Eq, Structural)]
pub struct UnknownEvent;

/// The identifier under which the forge announces events of `kind`.
pub open spec fn identifier_of(kind: EventName) -> Seq<char> {
    match kind {
        EventName::PullRequest => "pull_request"@,
        EventName::PullRequestReview => "pull_request_review"@,
        EventName::PullRequestReviewComment => "pull_request_review_comment"@,
        EventName::IssueComment => "issue_comment"@,
        EventName::Issue => "issues"@,
        EventName::Push => "push"@,
        EventName::Create => "create"@,
    }
}

/// The kind that `identifier` names, if it names one: an exact,
/// case-sensitive match against the identifiers of the recognized kinds.
pub open spec fn classified(identifier: Seq<char>) -> Option<EventName> {
    if identifier == identifier_of(EventName::PullRequest) {
        Some(EventName::PullRequest)
    } else if identifier == identifier_of(EventName::PullRequestReview) {
        Some(EventName::PullRequestReview)
    } else if identifier == identifier_of(EventName::PullRequestReviewComment) {
        Some(EventName::PullRequestReviewComment)
    } else if identifier == identifier_of(EventName::IssueComment) {
        Some(EventName::IssueComment)
    } else if identifier == identifier_of(EventName::Issue) {
        Some(EventName::Issue)
    } else if identifier == identifier_of(EventName::Push) {
        Some(EventName::Push)
    } else if identifier == identifier_of(EventName::Create) {
        Some(EventName::Create)
    } else {
        None
    }
}

impl EventName {
    /// The identifier of this kind.
    pub fn as_str(&self) -> (identifier: &'static str)
        ensures
            identifier@ == identifier_of(*self),
    {
        match self {
            EventName::PullRequest => "pull_request",
            EventName::PullRequestReview => "pull_request_review",
            EventName::PullRequestReviewComment => "pull_request_review_comment",
            EventName::IssueComment => "issue_comment",
            EventName::Issue => "issues",
            EventName::Push => "push",
            EventName::Create => "create",
        }
    }

    /// Classifies an event identifier. Fails on anything but the exact
    /// identifier of a recognized kind.
    pub fn parse(identifier: &str) -> (kind: Result<EventName, UnknownEvent>)
        ensures
            kind is Ok <==> classified(identifier@) is Some,
            kind is Ok ==> Some(kind->Ok_0) == classified(identifier@),
    {
        if str_eq(identifier, "pull_request") {
            Ok(EventName::PullRequest)
        } else if str_eq(identifier, "pull_request_review") {
            Ok(EventName::PullRequestReview)
        } else if str_eq(identifier, "pull_request_review_comment") {
            Ok(EventName::PullRequestReviewComment)
        } else if str_eq(identifier, "issue_comment") {
            Ok(EventName::IssueComment)
        } else if str_eq(identifier, "issues") {
            Ok(EventName::Issue)
        } else if str_eq(identifier, "push") {
            Ok(EventName::Push)
        } else if str_eq(identifier, "create") {
            Ok(EventName::Create)
        } else {
            Err(UnknownEvent)
        }
    }
}

/// Two kinds with the same identifier are the same kind.
pub proof fn lemma_identifiers_distinct(a: EventName, b: EventName)
    ensures
        identifier_of(a) == identifier_of(b) ==> a == b,
{
    reveal_strlit("pull_request");
    reveal_strlit("pull_request_review");
    reveal_strlit("pull_request_review_comment");
    reveal_strlit("issue_comment");
    reveal_strlit("issues");
    reveal_strlit("push");
    reveal_strlit("create");
    if identifier_of(a) == identifier_of(b) {
        assert(identifier_of(a).len() == identifier_of(b).len());
        assert(identifier_of(a)[0] == identifier_of(b)[0]);
    }
}

/// The identifier of each recognized kind classifies back to that kind.
pub proof fn lemma_identifier_round_trip(kind: EventName)
    ensures
        classified(identifier_of(kind)) == Some(kind),
{
    lemma_identifiers_distinct(kind, EventName::PullRequest);
    lemma_identifiers_distinct(kind, EventName::PullRequestReview);
    lemma_identifiers_distinct(kind, EventName::PullRequestReviewComment);
    lemma_identifiers_distinct(kind, EventName::IssueComment);
    lemma_identifiers_distinct(kind, EventName::Issue);
    lemma_identifiers_distinct(kind, EventName::Push);
    lemma_identifiers_distinct(kind, EventName::Create);
}

/// An identifier classifies to a kind exactly when it is that kind's
/// identifier; a text that is no kind's identifier classifies to nothing.
pub proof fn lemma_classified_exact(identifier: Seq<char>, kind: EventName)
    ensures
        classified(identifier) == Some(kind) <==> identifier == identifier_of(kind),
        classified(identifier) is None <==> forall|k: EventName| identifier != #[trigger] identifier_of(k),
{
    lemma_identifier_round_trip(kind);
    assert forall|k: EventName| classified(identifier) is None implies identifier
        != #[trigger] identifier_of(k) by {
        lemma_identifier_round_trip(k);
    }
    if classified(identifier) is Some {
        let k = classified(identifier)->Some_0;
        assert(identifier == identifier_of(k));
    }
}

} // verus!
