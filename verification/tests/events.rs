use triagebot::event::EventName;
use triagebot::event::UnknownEvent;

const KINDS: [EventName; 7] = [
    EventName::PullRequest,
    EventName::PullRequestReview,
    EventName::PullRequestReviewComment,
    EventName::IssueComment,
    EventName::Issue,
    EventName::Push,
    EventName::Create,
];

#[test]
fn identifiers_are_the_forge_names() {
    assert_eq!(EventName::PullRequest.as_str(), "pull_request");
    assert_eq!(EventName::PullRequestReview.as_str(), "pull_request_review");
    assert_eq!(EventName::PullRequestReviewComment.as_str(), "pull_request_review_comment");
    assert_eq!(EventName::IssueComment.as_str(), "issue_comment");
    assert_eq!(EventName::Issue.as_str(), "issues");
    assert_eq!(EventName::Push.as_str(), "push");
    assert_eq!(EventName::Create.as_str(), "create");
}

#[test]
fn each_identifier_parses() {
    assert_eq!(EventName::parse("pull_request"), Ok(EventName::PullRequest));
    assert_eq!(EventName::parse("pull_request_review"), Ok(EventName::PullRequestReview));
    assert_eq!(
        EventName::parse("pull_request_review_comment"),
        Ok(EventName::PullRequestReviewComment)
    );
    assert_eq!(EventName::parse("issue_comment"), Ok(EventName::IssueComment));
    assert_eq!(EventName::parse("issues"), Ok(EventName::Issue));
    assert_eq!(EventName::parse("push"), Ok(EventName::Push));
    assert_eq!(EventName::parse("create"), Ok(EventName::Create));
}

#[test]
fn identifiers_round_trip() {
    for kind in KINDS {
        assert_eq!(EventName::parse(kind.as_str()), Ok(kind));
    }
}

#[test]
fn identifiers_are_distinct() {
    for a in KINDS {
        for b in KINDS {
            assert_eq!(a.as_str() == b.as_str(), a == b);
        }
    }
}

#[test]
fn unknown_identifiers_fail() {
    for text in ["", "other", "issue", "ping", "pushes", "pull_request_", "pull request", "delete"] {
        assert_eq!(EventName::parse(text), Err(UnknownEvent));
    }
}

#[test]
fn classification_is_case_sensitive_and_exact() {
    for text in ["Push", "PUSH", " push", "push ", "push\n", "Issues", "pull_Request"] {
        assert_eq!(EventName::parse(text), Err(UnknownEvent));
    }
}
