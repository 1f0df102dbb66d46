//! The detail panes of the review screen: what they are opened on, which
//! feedback item or thread they show, and the reply they send.
use vstd::prelude::*;
use crate::app::ReviewAction;
use crate::diff_snippet::{basename, basename_chars};
use crate::domain::{
    anchor_file, anchor_line, anchor_side, opt_str, Feedback, FeedbackAnchor, FeedbackSide,
    ReviewThread,
};
use crate::search::{first_match, lemma_first_match_at, lemma_first_match_none};
use crate::text::{chars_of, decimal, push_chars, push_decimal, str_eq, string_from_chars, trim, trimmed};

verus! {

/// The feedback detail pane: a task, the feedback item (if one is open) and
/// the diff anchor it is attached to.
pub struct FeedbackDetailView {
    pub task_id: String,
    pub feedback_id: Option<String>,
    pub file_path: Option<String>,
    pub line_number: Option<u32>,
    pub side: Option<FeedbackSide>,
}

/// The thread detail pane: a task, the thread (if one is open) and the diff
/// anchor it is attached to.
pub struct ThreadDetailView {
    pub task_id: String,
    pub thread_id: Option<String>,
    pub file_path: Option<String>,
    pub line_number: Option<u32>,
}

/// An item of task `task_id` anchored at `file` and `line` (each compared as
/// an option, so that an item without a file matches a pane without one).
pub open spec fn anchored_at(
    item_task: Option<String>,
    anchor: Option<FeedbackAnchor>,
    task_id: Seq<char>,
    file: Option<Seq<char>>,
    line: Option<u32>,
) -> bool {
    &&& opt_str(item_task) == Some(task_id)
    &&& anchor_file(anchor) == file
    &&& anchor_line(anchor) == line
}

pub open spec fn feedback_has_id(id: Seq<char>) -> spec_fn(Feedback) -> bool {
    |f: Feedback| f.id@ == id
}

pub open spec fn feedback_anchored_at(task_id: Seq<char>, file: Option<Seq<char>>, line: Option<u32>) -> spec_fn(
    Feedback,
) -> bool {
    |f: Feedback| anchored_at(f.task_id, f.anchor, task_id, file, line)
}

pub open spec fn thread_has_id(id: Seq<char>) -> spec_fn(ReviewThread) -> bool {
    |t: ReviewThread| t.id@ == id
}

pub open spec fn thread_anchored_at(task_id: Seq<char>, file: Option<Seq<char>>, line: Option<u32>) -> spec_fn(
    ReviewThread,
) -> bool {
    |t: ReviewThread| anchored_at(t.task_id, t.anchor, task_id, file, line)
}

/// The feedback item the pane shows: the first with the pane's feedback id,
/// else the first of the pane's task anchored where the pane is.
pub open spec fn feedback_target(items: Seq<Feedback>, v: FeedbackDetailView) -> Option<int> {
    let by_id = match v.feedback_id {
        Some(id) => first_match(items, feedback_has_id(id@)),
        None => None,
    };
    match by_id {
        Some(i) => Some(i),
        None => first_match(
            items,
            feedback_anchored_at(v.task_id@, opt_str(v.file_path), v.line_number),
        ),
    }
}

/// The thread the pane shows: the first with the pane's thread id, else the
/// first of the pane's task anchored where the pane is.
pub open spec fn thread_target(items: Seq<ReviewThread>, v: ThreadDetailView) -> Option<int> {
    let by_id = match v.thread_id {
        Some(id) => first_match(items, thread_has_id(id@)),
        None => None,
    };
    match by_id {
        Some(i) => Some(i),
        None => first_match(
            items,
            thread_anchored_at(v.task_id@, opt_str(v.file_path), v.line_number),
        ),
    }
}

fn opt_str_eq(a: &Option<String>, b: &Option<String>) -> (r: bool)
    ensures
        r == (opt_str(*a) == opt_str(*b)),
{
    match (a, b) {
        (Some(x), Some(y)) => str_eq(x.as_str(), y.as_str()),
        (None, None) => true,
        _ => false,
    }
}

fn is_anchored_at(
    item_task: &Option<String>,
    anchor: &Option<FeedbackAnchor>,
    task_id: &str,
    file: &Option<String>,
    line: Option<u32>,
) -> (r: bool)
    ensures
        r == anchored_at(*item_task, *anchor, task_id@, opt_str(*file), line),
{
    let task_ok = match item_task {
        Some(t) => str_eq(t.as_str(), task_id),
        None => false,
    };
    if !task_ok {
        return false;
    }
    match anchor {
        Some(a) => opt_str_eq(&a.file_path, file) && a.line_number == line,
        None => file.is_none() && line.is_none(),
    }
}

fn first_feedback_with_id(feedbacks: &Vec<Feedback>, id: &str) -> (r: Option<usize>)
    ensures
        match r {
            Some(i) => i < feedbacks.len() && first_match(feedbacks@, feedback_has_id(id@)) == Some(i as int),
            None => first_match(feedbacks@, feedback_has_id(id@)) is None,
        },
{
    let ghost p = feedback_has_id(id@);
    let mut i: usize = 0;
    while i < feedbacks.len()
        invariant
            i <= feedbacks.len(),
            p == feedback_has_id(id@),
            forall|j: int| 0 <= j < i ==> !p(#[trigger] feedbacks@[j]),
        decreases feedbacks.len() - i,
    {
        if str_eq(feedbacks[i].id.as_str(), id) {
            proof {
                lemma_first_match_at(feedbacks@, p, i as int);
            }
            return Some(i);
        }
        i = i + 1;
    }
    proof {
        lemma_first_match_none(feedbacks@, p);
    }
    None
}

/// Finds the feedback item that the pane `view` shows among `feedbacks`.
pub fn find_feedback(feedbacks: &Vec<Feedback>, view: &FeedbackDetailView) -> (r: Option<usize>)
    ensures
        match r {
            Some(i) => i < feedbacks.len() && feedback_target(feedbacks@, *view) == Some(i as int),
            None => feedback_target(feedbacks@, *view) is None,
        },
{
    let by_id = match &view.feedback_id {
        Some(id) => first_feedback_with_id(feedbacks, id.as_str()),
        None => None,
    };
    if by_id.is_some() {
        return by_id;
    }
    let ghost q = feedback_anchored_at(view.task_id@, opt_str(view.file_path), view.line_number);
    let mut i: usize = 0;
    while i < feedbacks.len()
        invariant
            i <= feedbacks.len(),
            q == feedback_anchored_at(view.task_id@, opt_str(view.file_path), view.line_number),
            forall|j: int| 0 <= j < i ==> !q(#[trigger] feedbacks@[j]),
            view.feedback_id matches Some(id) ==> first_match(feedbacks@, feedback_has_id(id@)) is None,
        decreases feedbacks.len() - i,
    {
        let f = &feedbacks[i];
        if is_anchored_at(&f.task_id, &f.anchor, view.task_id.as_str(), &view.file_path, view.line_number) {
            proof {
                lemma_first_match_at(feedbacks@, q, i as int);
            }
            return Some(i);
        }
        i = i + 1;
    }
    proof {
        lemma_first_match_none(feedbacks@, q);
    }
    None
}

fn first_thread_with_id(threads: &Vec<ReviewThread>, id: &str) -> (r: Option<usize>)
    ensures
        match r {
            Some(i) => i < threads.len() && first_match(threads@, thread_has_id(id@)) == Some(i as int),
            None => first_match(threads@, thread_has_id(id@)) is None,
        },
{
    let ghost p = thread_has_id(id@);
    let mut i: usize = 0;
    while i < threads.len()
        invariant
            i <= threads.len(),
            p == thread_has_id(id@),
            forall|j: int| 0 <= j < i ==> !p(#[trigger] threads@[j]),
        decreases threads.len() - i,
    {
        if str_eq(threads[i].id.as_str(), id) {
            proof {
                lemma_first_match_at(threads@, p, i as int);
            }
            return Some(i);
        }
        i = i + 1;
    }
    proof {
        lemma_first_match_none(threads@, p);
    }
    None
}

/// Finds the thread that the pane `view` shows among `threads`.
pub fn find_thread(threads: &Vec<ReviewThread>, view: &ThreadDetailView) -> (r: Option<usize>)
    ensures
        match r {
            Some(i) => i < threads.len() && thread_target(threads@, *view) == Some(i as int),
            None => thread_target(threads@, *view) is None,
        },
{
    let by_id = match &view.thread_id {
        Some(id) => first_thread_with_id(threads, id.as_str()),
        None => None,
    };
    if by_id.is_some() {
        return by_id;
    }
    let ghost q = thread_anchored_at(view.task_id@, opt_str(view.file_path), view.line_number);
    let mut i: usize = 0;
    while i < threads.len()
        invariant
            i <= threads.len(),
            q == thread_anchored_at(view.task_id@, opt_str(view.file_path), view.line_number),
            forall|j: int| 0 <= j < i ==> !q(#[trigger] threads@[j]),
            view.thread_id matches Some(id) ==> first_match(threads@, thread_has_id(id@)) is None,
        decreases threads.len() - i,
    {
        let t = &threads[i];
        if is_anchored_at(&t.task_id, &t.anchor, view.task_id.as_str(), &view.file_path, view.line_number) {
            proof {
                lemma_first_match_at(threads@, q, i as int);
            }
            return Some(i);
        }
        i = i + 1;
    }
    proof {
        lemma_first_match_none(threads@, q);
    }
    None
}

/// The side a reply to a feedback item is anchored on: the pane's side,
/// else the side of the item's anchor.
pub fn composer_side(view: &FeedbackDetailView, feedback: Option<&Feedback>) -> (r: Option<
    FeedbackSide,
>)
    ensures
        r == match view.side {
            Some(s) => Some(s),
            None => match feedback {
                Some(f) => anchor_side(f.anchor),
                None => None,
            },
        },
{
    match view.side {
        Some(s) => Some(s),
        None => match feedback {
            Some(f) => match &f.anchor {
                Some(a) => a.side,
                None => None,
            },
            None => None,
        },
    }
}

/// The title sent with a reply: none where the title draft is blank, else
/// the draft as it was typed.
pub open spec fn reply_title_of(title_draft: Seq<char>) -> Option<Seq<char>> {
    if trim(title_draft).len() == 0 {
        None
    } else {
        Some(title_draft)
    }
}

fn reply_title(title_draft: &str) -> (r: Option<String>)
    ensures
        opt_str(r) == reply_title_of(title_draft@),
{
    let cs = chars_of(title_draft);
    if trimmed(&cs).len() == 0 {
        None
    } else {
        Some(string_from_chars(&cs))
    }
}

fn trimmed_string(s: &str) -> (r: String)
    ensures
        r@ == trim(s@),
{
    string_from_chars(&trimmed(&chars_of(s)))
}

/// The reply that "Send Reply" sends from the feedback pane: none while the
/// reply draft is blank; else a comment on the item (or a new item at the
/// anchor) with the trimmed reply as its body.
pub fn feedback_reply_action(
    task_id: &str,
    feedback_id: Option<String>,
    file_path: Option<String>,
    line_number: Option<u32>,
    side: Option<FeedbackSide>,
    title_draft: &str,
    reply_draft: &str,
) -> (r: Option<ReviewAction>)
    ensures
        trim(reply_draft@).len() == 0 ==> r is None,
        trim(reply_draft@).len() != 0 ==> (r matches Some(
            ReviewAction::CreateFeedbackComment {
                task_id: t,
                feedback_id: f,
                file_path: p,
                line_number: l,
                side: s,
                title,
                body,
            },
        ) && t@ == task_id@ && f == feedback_id && p == file_path && l == line_number && s == side
            && opt_str(title) == reply_title_of(title_draft@) && body@ == trim(reply_draft@)),
{
    let body = trimmed_string(reply_draft);
    if body.as_str().is_empty() {
        return None;
    }
    Some(
        ReviewAction::CreateFeedbackComment {
            task_id: string_from_chars(&chars_of(task_id)),
            feedback_id,
            file_path,
            line_number,
            side,
            title: reply_title(title_draft),
            body,
        },
    )
}

/// The actions that "Send Reply" dispatches from the thread pane: none while
/// the reply draft is blank; else a comment on the thread (or a new thread at
/// the pane's anchor) with the trimmed reply as its body, then the clearing
/// of the reply draft.
pub fn thread_reply_actions(
    view: &ThreadDetailView,
    thread_id: Option<String>,
    title_draft: &str,
    reply_draft: &str,
) -> (r: Vec<ReviewAction>)
    ensures
        trim(reply_draft@).len() == 0 ==> r@.len() == 0,
        trim(reply_draft@).len() != 0 ==> r@.len() == 2 && r@[1] is ClearThreadReplyDraft,
        trim(reply_draft@).len() != 0 ==> (r@[0] matches
            ReviewAction::CreateThreadComment {
                task_id: t,
                thread_id: th,
                file_path: p,
                line_number: l,
                title,
                body,
            } && t@ == view.task_id@ && th == thread_id && opt_str(p) == opt_str(view.file_path)
            && l == view.line_number && opt_str(title) == reply_title_of(title_draft@)
            && body@ == trim(reply_draft@)),
{
    let mut out: Vec<ReviewAction> = Vec::new();
    let body = trimmed_string(reply_draft);
    if body.as_str().is_empty() {
        return out;
    }
    let file_path = match &view.file_path {
        Some(p) => Some(p.clone()),
        None => None,
    };
    out.push(
        ReviewAction::CreateThreadComment {
            task_id: view.task_id.clone(),
            thread_id,
            file_path,
            line_number: view.line_number,
            title: reply_title(title_draft),
            body,
        },
    );
    out.push(ReviewAction::ClearThreadReplyDraft);
    out
}

/// The location line of a detail pane (above the diff context of a
/// feedback item or of a thread): shown for a file and a line above zero, as
/// the file's base name, `:` and the line.
pub open spec fn location_label_of(file_path: Option<String>, line_number: Option<u32>) -> Option<Seq<char>> {
    match (file_path, line_number) {
        (Some(p), Some(n)) => if n > 0 {
            Some(basename(p@) + ":"@ + decimal(n as nat))
        } else {
            None
        },
        _ => None,
    }
}

/// The location line of a detail pane.
pub fn anchor_location_label(file_path: &Option<String>, line_number: Option<u32>) -> (r: Option<String>)
    ensures
        opt_str(r) == location_label_of(*file_path, line_number),
{
    match (file_path, line_number) {
        (Some(p), Some(n)) => {
            if n == 0 {
                return None;
            }
            let mut out = basename_chars(&chars_of(p.as_str()));
            push_chars(&mut out, &chars_of(":"));
            push_decimal(&mut out, n as usize);
            Some(string_from_chars(&out))
        },
        _ => None,
    }
}

/// The title edit of a feedback item, once its field loses focus: renamed
/// where the item exists and the text differs from its title.
pub fn feedback_title_commit(feedback_id: Option<String>, existing_title: &str, edited: &str) -> (r:
    Option<ReviewAction>)
    ensures
        (feedback_id is Some && edited@ != existing_title@) ==> (r matches Some(
            ReviewAction::UpdateFeedbackTitle { feedback_id: f, title },
        ) && Some(f) == feedback_id && title@ == edited@),
        !(feedback_id is Some && edited@ != existing_title@) ==> r is None,
{
    match feedback_id {
        Some(f) => {
            if str_eq(edited, existing_title) {
                None
            } else {
                Some(
                    ReviewAction::UpdateFeedbackTitle {
                        feedback_id: f,
                        title: string_from_chars(&chars_of(edited)),
                    },
                )
            }
        },
        None => None,
    }
}

/// The title edit of a thread, once its field loses focus: renamed where the
/// thread exists and the text differs from its title.
pub fn thread_title_commit(thread_id: Option<String>, existing_title: &str, edited: &str) -> (r:
    Option<ReviewAction>)
    ensures
        (thread_id is Some && edited@ != existing_title@) ==> (r matches Some(
            ReviewAction::UpdateThreadTitle { thread_id: t, title },
        ) && Some(t) == thread_id && title@ == edited@),
        !(thread_id is Some && edited@ != existing_title@) ==> r is None,
{
    match thread_id {
        Some(t) => {
            if str_eq(edited, existing_title) {
                None
            } else {
                Some(
                    ReviewAction::UpdateThreadTitle {
                        thread_id: t,
                        title: string_from_chars(&chars_of(edited)),
                    },
                )
            }
        },
        None => None,
    }
}

/// Opening the notes on a line of the changes tab: the thread pane on the
/// first thread of the task anchored at that file and line (where there is
/// one), at that anchor.
pub fn view_notes_action(threads: &Vec<ReviewThread>, task_id: &str, file_path: &str, line_number: u32) -> (r:
    ReviewAction)
    ensures
        r matches ReviewAction::OpenThread { task_id: t, thread_id, file_path: f, line_number: l }
            && t@ == task_id@ && opt_str(f) == Some(file_path@) && l == Some(line_number)
            && match first_match(threads@, thread_anchored_at(task_id@, Some(file_path@), Some(line_number))) {
                Some(i) => opt_str(thread_id) == Some(threads@[i].id@),
                None => thread_id is None,
            },
{
    let view = ThreadDetailView {
        task_id: string_from_chars(&chars_of(task_id)),
        thread_id: None,
        file_path: Some(string_from_chars(&chars_of(file_path))),
        line_number: Some(line_number),
    };
    let found = find_thread(threads, &view);
    let thread_id = match found {
        Some(i) => Some(threads[i].id.clone()),
        None => None,
    };
    ReviewAction::OpenThread {
        task_id: view.task_id,
        thread_id,
        file_path: view.file_path,
        line_number: view.line_number,
    }
}

/// The feedback item a pane shows is the pane's own: an item with the
/// pane's feedback id where one has it; otherwise an item of the pane's task
/// whose anchor has the pane's file and line (no anchor standing for neither).
pub proof fn lemma_feedback_shown_is_the_panes(items: Seq<Feedback>, v: FeedbackDetailView)
    requires
        feedback_target(items, v) is Some,
    ensures
        ({
            let i = feedback_target(items, v).unwrap();
            &&& 0 <= i < items.len()
            &&& if v.feedback_id matches Some(id) && exists|k: int|
                0 <= k < items.len() && items[k].id@ == id@ {
                v.feedback_id matches Some(id) && items[i].id@ == id@
            } else {
                &&& items[i].task_id matches Some(t) && t@ == v.task_id@
                &&& match items[i].anchor {
                    Some(a) => opt_str(a.file_path) == opt_str(v.file_path) && a.line_number
                        == v.line_number,
                    None => v.file_path is None && v.line_number is None,
                }
            }
        }),
{
    let i = feedback_target(items, v).unwrap();
    match v.feedback_id {
        Some(id) => {
            let p = feedback_has_id(id@);
            if exists|k: int| 0 <= k < items.len() && items[k].id@ == id@ {
                let k = choose|k: int| 0 <= k < items.len() && items[k].id@ == id@;
                assert(p(items[k]));
                crate::search::lemma_first_exists(items, p, k);
                let j = first_match(items, p).unwrap();
                assert(crate::search::is_first_match(items, p, j));
                assert(i == j);
            } else {
                if first_match(items, p) is Some {
                    let j = first_match(items, p).unwrap();
                    assert(crate::search::is_first_match(items, p, j));
                    assert(false);
                }
                let q = feedback_anchored_at(v.task_id@, opt_str(v.file_path), v.line_number);
                assert(crate::search::is_first_match(items, q, i));
                assert(q(items[i]));
            }
        },
        None => {
            let q = feedback_anchored_at(v.task_id@, opt_str(v.file_path), v.line_number);
            assert(crate::search::is_first_match(items, q, i));
            assert(q(items[i]));
        },
    }
}

/// The thread a pane shows is the pane's own: a thread with the pane's
/// thread id where one has it; otherwise a thread of the pane's task whose
/// anchor has the pane's file and line (no anchor standing for neither).
pub proof fn lemma_thread_shown_is_the_panes(items: Seq<ReviewThread>, v: ThreadDetailView)
    requires
        thread_target(items, v) is Some,
    ensures
        ({
            let i = thread_target(items, v).unwrap();
            &&& 0 <= i < items.len()
            &&& if v.thread_id matches Some(id) && exists|k: int|
                0 <= k < items.len() && items[k].id@ == id@ {
                v.thread_id matches Some(id) && items[i].id@ == id@
            } else {
                &&& items[i].task_id matches Some(t) && t@ == v.task_id@
                &&& match items[i].anchor {
                    Some(a) => opt_str(a.file_path) == opt_str(v.file_path) && a.line_number
                        == v.line_number,
                    None => v.file_path is None && v.line_number is None,
                }
            }
        }),
{
    let i = thread_target(items, v).unwrap();
    match v.thread_id {
        Some(id) => {
            let p = thread_has_id(id@);
            if exists|k: int| 0 <= k < items.len() && items[k].id@ == id@ {
                let k = choose|k: int| 0 <= k < items.len() && items[k].id@ == id@;
                assert(p(items[k]));
                crate::search::lemma_first_exists(items, p, k);
                let j = first_match(items, p).unwrap();
                assert(crate::search::is_first_match(items, p, j));
                assert(i == j);
            } else {
                if first_match(items, p) is Some {
                    let j = first_match(items, p).unwrap();
                    assert(crate::search::is_first_match(items, p, j));
                    assert(false);
                }
                let q = thread_anchored_at(v.task_id@, opt_str(v.file_path), v.line_number);
                assert(crate::search::is_first_match(items, q, i));
                assert(q(items[i]));
            }
        },
        None => {
            let q = thread_anchored_at(v.task_id@, opt_str(v.file_path), v.line_number);
            assert(crate::search::is_first_match(items, q, i));
            assert(q(items[i]));
        },
    }
}


} // verus!
