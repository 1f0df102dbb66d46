//! Sending feedback to a pull request: how the location of a feedback item
//! reads in the confirmation dialog and in the list of items to send.
use vstd::prelude::*;
use crate::domain::{Feedback, FeedbackAnchor, FeedbackSide, Review};
use crate::review_header::review_has_id;
use crate::search::{first_match, lemma_first_match_at, lemma_first_match_none};
use crate::text::{chars_of, decimal, push_decimal, push_str, str_eq, string_from_chars};

verus! {

/// The file of an anchor, or `<no file>`.
pub open spec fn file_or_placeholder(anchor: Option<FeedbackAnchor>) -> Seq<char> {
    match anchor {
        Some(a) => match a.file_path {
            Some(p) => p@,
            None => "<no file>"@,
        },
        None => "<no file>"@,
    }
}

/// The line of an anchor in decimal, or `?`.
pub open spec fn line_or_placeholder(anchor: Option<FeedbackAnchor>) -> Seq<char> {
    match anchor {
        Some(a) => match a.line_number {
            Some(n) => decimal(n as nat),
            None => "?"@,
        },
        None => "?"@,
    }
}

/// The name of a side as the list shows it.
pub open spec fn side_name(side: FeedbackSide) -> Seq<char> {
    match side {
        FeedbackSide::Old => "Old"@,
        FeedbackSide::New => "New"@,
    }
}

/// The location shown in the confirmation before one feedback item is sent:
/// `file:line`, with `<no file>` and `?` for what the anchor lacks.
pub fn confirm_location(anchor: &Option<FeedbackAnchor>) -> (r: String)
    ensures
        r@ == file_or_placeholder(*anchor) + ":"@ + line_or_placeholder(*anchor),
{
    let mut out: Vec<char> = Vec::new();
    match anchor {
        Some(a) => match &a.file_path {
            Some(p) => push_str(&mut out, p.as_str()),
            None => push_str(&mut out, "<no file>"),
        },
        None => push_str(&mut out, "<no file>"),
    }
    push_str(&mut out, ":");
    match anchor {
        Some(a) => match a.line_number {
            Some(n) => push_decimal(&mut out, n as usize),
            None => push_str(&mut out, "?"),
        },
        None => push_str(&mut out, "?"),
    }
    proof {
        reveal_strlit("<no file>");
        reveal_strlit(":");
        reveal_strlit("?");
    }
    string_from_chars(&out)
}

/// The location of a feedback item in the list of items to send: none for an
/// item without an anchor; `file:line (side)` where the anchor names a file
/// and a line (a missing side reads as the new side); `No location`
/// otherwise.
pub open spec fn row_location(anchor: Option<FeedbackAnchor>) -> Option<Seq<char>> {
    match anchor {
        None => None,
        Some(a) => match (a.file_path, a.line_number) {
            (Some(p), Some(n)) => Some(
                p@ + ":"@ + decimal(n as nat) + " ("@ + side_name(
                    match a.side {
                        Some(s) => s,
                        None => FeedbackSide::New,
                    },
                ) + ")"@,
            ),
            _ => Some("No location"@),
        },
    }
}

/// The location of a feedback item in the list of items to send.
pub fn send_list_location(anchor: &Option<FeedbackAnchor>) -> (r: Option<String>)
    ensures
        match r {
            Some(s) => row_location(*anchor) == Some(s@),
            None => row_location(*anchor) is None,
        },
{
    match anchor {
        None => None,
        Some(a) => match (&a.file_path, a.line_number) {
            (Some(p), Some(n)) => {
                let mut out: Vec<char> = Vec::new();
                push_str(&mut out, p.as_str());
                push_str(&mut out, ":");
                push_decimal(&mut out, n as usize);
                push_str(&mut out, " (");
                let side = match a.side {
                    Some(s) => s,
                    None => FeedbackSide::New,
                };
                match side {
                    FeedbackSide::Old => push_str(&mut out, "Old"),
                    FeedbackSide::New => push_str(&mut out, "New"),
                }
                push_str(&mut out, ")");
                Some(string_from_chars(&out))
            },
            _ => {
                let s = "No location";
                Some(string_from_chars(&chars_of(s)))
            },
        },
    }
}

pub open spec fn feedback_has_id(id: Seq<char>) -> spec_fn(Feedback) -> bool {
    |f: Feedback| f.id@ == id
}

/// The feedback item that the confirmation before sending is about: the
/// first with its id. Where there is none the dialog is cancelled.
pub fn push_confirm_feedback(feedbacks: &Vec<Feedback>, feedback_id: &str) -> (r: Option<usize>)
    ensures
        match r {
            Some(i) => i < feedbacks.len() && first_match(feedbacks@, feedback_has_id(feedback_id@))
                == Some(i as int),
            None => first_match(feedbacks@, feedback_has_id(feedback_id@)) is None,
        },
{
    let ghost p = feedback_has_id(feedback_id@);
    let mut i: usize = 0;
    while i < feedbacks.len()
        invariant
            i <= feedbacks.len(),
            p == feedback_has_id(feedback_id@),
            forall|j: int| 0 <= j < i ==> !p(#[trigger] feedbacks@[j]),
        decreases feedbacks.len() - i,
    {
        if str_eq(feedbacks[i].id.as_str(), feedback_id) {
            proof {
                lemma_first_match_at(feedbacks@, p, i as int);
            }
            return Some(i);
        }
        i = i + 1;
    }
    proof {
        lemma_first_match_none(feedbacks@, p);
    }
    None
}

/// Sending item `feedback_id` is under way (its buttons are disabled).
pub fn push_pending(pending: &Option<String>, feedback_id: &str) -> (r: bool)
    ensures
        r == (pending matches Some(p) && p@ == feedback_id@),
{
    match pending {
        Some(p) => str_eq(p.as_str(), feedback_id),
        None => false,
    }
}

/// The review that the send-to-PR dialog is about: the selected one, where
/// it is among `reviews`. Where there is none the dialog is closed.
pub fn send_to_pr_review(reviews: &Vec<Review>, selected: &Option<String>) -> (r: Option<usize>)
    ensures
        match selected {
            Some(id) => match r {
                Some(i) => i < reviews.len() && first_match(reviews@, review_has_id(id@)) == Some(
                    i as int,
                ),
                None => first_match(reviews@, review_has_id(id@)) is None,
            },
            None => r is None,
        },
{
    match selected {
        Some(id) => {
            let ghost p = review_has_id(id@);
            let mut i: usize = 0;
            while i < reviews.len()
                invariant
                    i <= reviews.len(),
                    p == review_has_id(id@),
                    *selected matches Some(s) && s@ == id@,
                    forall|j: int| 0 <= j < i ==> !p(#[trigger] reviews@[j]),
                decreases reviews.len() - i,
            {
                if str_eq(reviews[i].id.as_str(), id.as_str()) {
                    proof {
                        lemma_first_match_at(reviews@, p, i as int);
                    }
                    return Some(i);
                }
                i = i + 1;
            }
            proof {
                lemma_first_match_none(reviews@, p);
            }
            None
        },
        None => None,
    }
}


/// A row of the send list names the anchor's own side: a row for an anchor
/// with a file and a line starts with `file:line` and ends with ` (Old)` for
/// the old side and ` (New)` for the new side or for no side.
pub proof fn lemma_row_names_anchor_side(anchor: Option<FeedbackAnchor>)
    requires
        anchor matches Some(a) && a.file_path is Some && a.line_number is Some,
    ensures
        row_location(anchor) matches Some(r) && {
            let a = anchor.unwrap();
            let head = a.file_path.unwrap()@ + ":"@ + decimal(a.line_number.unwrap() as nat);
            &&& r.len() >= head.len() + 6
            &&& r.subrange(0, head.len() as int) == head
            &&& r.subrange(r.len() - 6, r.len() as int) == if a.side == Some(FeedbackSide::Old) {
                " (Old)"@
            } else {
                " (New)"@
            }
        },
{
    let a = anchor.unwrap();
    let head = a.file_path.unwrap()@ + ":"@ + decimal(a.line_number.unwrap() as nat);
    reveal_strlit(" (");
    reveal_strlit(")");
    reveal_strlit("Old");
    reveal_strlit("New");
    reveal_strlit(" (Old)");
    reveal_strlit(" (New)");
    let s = match a.side {
        Some(s) => s,
        None => FeedbackSide::New,
    };
    let tail = " ("@ + side_name(s) + ")"@;
    let r = row_location(anchor).unwrap();
    assert(r == head + tail);
    assert(r.subrange(0, head.len() as int) == head);
    assert(r.subrange(r.len() - 6, r.len() as int) == tail);
    if a.side == Some(FeedbackSide::Old) {
        assert(tail == " (Old)"@);
    } else {
        assert(tail == " (New)"@);
    }
}


} // verus!
