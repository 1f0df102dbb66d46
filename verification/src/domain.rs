//! The review data that the screens read.
use vstd::prelude::*;

verus! {

/// How risky a review task is.
#[derive(Clone, Copy, Debug, PartialEq, Eq, Structural)]
pub enum RiskLevel {
    Low,
    Medium,
    High,
}

/// Where a review task (or thread) stands.
#[derive(Clone, Copy, Debug, PartialEq, Eq, Structural)]
pub enum ReviewStatus {
    Todo,
    InProgress,
    Done,
    Ignored,
}

impl ReviewStatus {
    pub open spec fn spec_is_closed(self) -> bool {
        self == ReviewStatus::Done || self == ReviewStatus::Ignored
    }

    /// Done or ignored.
    #[verifier::when_used_as_spec(spec_is_closed)]
    pub fn is_closed(self) -> (r: bool)
        ensures
            r == self.spec_is_closed(),
    {
        match self {
            ReviewStatus::Done | ReviewStatus::Ignored => true,
            _ => false,
        }
    }
}

/// What the impact of a feedback item or a thread is.
#[derive(Clone, Copy, Debug, PartialEq, Eq, Structural)]
pub enum ThreadImpact {
    Blocking,
    NiceToHave,
    Nitpick,
}

/// The side of a diff that a feedback item is anchored on.
#[derive(Clone, Copy, Debug, PartialEq, Eq, Structural)]
pub enum FeedbackSide {
    Old,
    New,
}

/// Statistics of a review task.
pub struct TaskStats {
    pub risk: RiskLevel,
}

/// One task of a review.
pub struct ReviewTask {
    pub id: String,
    pub run_id: String,
    pub title: String,
    pub status: ReviewStatus,
    pub stats: TaskStats,
    pub sub_flow: Option<String>,
}

/// A review: one diff under review, with the runs made over it.
pub struct Review {
    pub id: String,
    pub title: String,
    pub created_at: String,
}

/// A repository linked to the application: its id and where it is.
pub struct LinkedRepo {
    pub id: String,
    pub path: String,
}

/// One run of the review agent over a diff.
pub struct ReviewRun {
    pub id: String,
    pub review_id: String,
    pub agent_id: String,
    pub diff_text: String,
}

/// The text of an optional string.
pub open spec fn opt_str(o: Option<String>) -> Option<Seq<char>> {
    match o {
        Some(s) => Some(s@),
        None => None,
    }
}

/// Where in a diff a feedback item is attached.
pub struct FeedbackAnchor {
    pub file_path: Option<String>,
    pub line_number: Option<u32>,
    pub side: Option<FeedbackSide>,
}

/// A feedback item of a review, as the detail pane finds it.
pub struct Feedback {
    pub id: String,
    pub task_id: Option<String>,
    pub anchor: Option<FeedbackAnchor>,
}

/// A discussion thread of a review, as the detail pane finds it.
pub struct ReviewThread {
    pub id: String,
    pub task_id: Option<String>,
    pub anchor: Option<FeedbackAnchor>,
}

/// The file of an optional anchor.
pub open spec fn anchor_file(a: Option<FeedbackAnchor>) -> Option<Seq<char>> {
    match a {
        Some(a) => opt_str(a.file_path),
        None => None,
    }
}

/// The line of an optional anchor.
pub open spec fn anchor_line(a: Option<FeedbackAnchor>) -> Option<u32> {
    match a {
        Some(a) => a.line_number,
        None => None,
    }
}

/// The side of an optional anchor.
pub open spec fn anchor_side(a: Option<FeedbackAnchor>) -> Option<FeedbackSide> {
    match a {
        Some(a) => a.side,
        None => None,
    }
}

/// A feedback item can be sent to a pull request when it is anchored to a
/// file, a line and a side.
pub fn pr_eligible(anchor: &Option<FeedbackAnchor>) -> (r: bool)
    ensures
        r == (anchor matches Some(a) && a.file_path is Some && a.line_number is Some
            && a.side is Some),
{
    match anchor {
        Some(a) => a.file_path.is_some() && a.line_number.is_some() && a.side.is_some(),
        None => false,
    }
}

} // verus!
