//! The decisions of the review screen: progress counts, the next task to
//! review, and what the center pane shows.
use vstd::prelude::*;
use crate::domain::{opt_str, ReviewStatus, ReviewTask, ReviewThread};
use crate::ordering::derefs;
use crate::search::{first_match, lemma_first_match_at, lemma_first_match_none};
use crate::text::{
    chars_of, decimal, push_decimal, push_str, str_eq, string_from_chars, to_upper, upper_case,
};
use crate::visuals::ThemeColor;

verus! {

/// How many of `tasks` have a status that satisfies `p`.
pub open spec fn count_status(tasks: Seq<ReviewTask>, p: spec_fn(ReviewStatus) -> bool) -> nat
    decreases tasks.len(),
{
    if tasks.len() == 0 {
        0
    } else {
        count_status(tasks.drop_last(), p) + if p(tasks.last().status) {
            1nat
        } else {
            0nat
        }
    }
}

pub open spec fn is_closed_status() -> spec_fn(ReviewStatus) -> bool {
    |s: ReviewStatus| s.spec_is_closed()
}

pub open spec fn is_open_status() -> spec_fn(ReviewStatus) -> bool {
    |s: ReviewStatus| s == ReviewStatus::Todo || s == ReviewStatus::InProgress
}

pub proof fn lemma_count_status_le(tasks: Seq<ReviewTask>, p: spec_fn(ReviewStatus) -> bool)
    ensures
        count_status(tasks, p) <= tasks.len(),
    decreases tasks.len(),
{
    if tasks.len() > 0 {
        lemma_count_status_le(tasks.drop_last(), p);
    }
}

/// How many of the listed tasks are done (closed) and how many are open.
pub fn task_progress(display_tasks: &Vec<&ReviewTask>) -> (r: (usize, usize))
    ensures
        r.0 == count_status(derefs(display_tasks@), is_closed_status()),
        r.1 == count_status(derefs(display_tasks@), is_open_status()),
{
    let ghost ts = derefs(display_tasks@);
    let mut done: usize = 0;
    let mut open: usize = 0;
    let mut i: usize = 0;
    while i < display_tasks.len()
        invariant
            i <= display_tasks.len(),
            ts == derefs(display_tasks@),
            done == count_status(ts.take(i as int), is_closed_status()),
            open == count_status(ts.take(i as int), is_open_status()),
        decreases display_tasks.len() - i,
    {
        proof {
            assert(ts.take(i + 1).drop_last() == ts.take(i as int));
            assert(ts.take(i + 1).last() == *display_tasks@[i as int]);
            lemma_count_status_le(ts.take(i as int), is_closed_status());
            lemma_count_status_le(ts.take(i as int), is_open_status());
        }
        let st = display_tasks[i].status;
        if st.is_closed() {
            done = done + 1;
        }
        if st == ReviewStatus::Todo || st == ReviewStatus::InProgress {
            open = open + 1;
        }
        i = i + 1;
    }
    assert(ts.take(display_tasks.len() as int) == ts);
    (done, open)
}

pub open spec fn has_status(s: ReviewStatus) -> spec_fn(ReviewTask) -> bool {
    |t: ReviewTask| t.status == s
}

fn first_with_status(tasks: &Vec<&ReviewTask>, s: ReviewStatus) -> (r: Option<usize>)
    ensures
        match r {
            Some(i) => i < tasks.len() && first_match(derefs(tasks@), has_status(s)) == Some(i as int),
            None => first_match(derefs(tasks@), has_status(s)) is None,
        },
{
    let ghost ts = derefs(tasks@);
    let ghost p = has_status(s);
    let mut i: usize = 0;
    while i < tasks.len()
        invariant
            i <= tasks.len(),
            ts == derefs(tasks@),
            p == has_status(s),
            forall|j: int| 0 <= j < i ==> !p(#[trigger] ts[j]),
        decreases tasks.len() - i,
    {
        assert(ts[i as int] == *tasks@[i as int]);
        if tasks[i].status == s {
            proof {
                lemma_first_match_at(ts, p, i as int);
            }
            return Some(i);
        }
        i = i + 1;
    }
    proof {
        lemma_first_match_none(ts, p);
    }
    None
}

/// The task that "next open" leads to: the first to-do task, else the first
/// task in progress.
pub open spec fn next_open_index(tasks: Seq<ReviewTask>) -> Option<int> {
    match first_match(tasks, has_status(ReviewStatus::Todo)) {
        Some(i) => Some(i),
        None => first_match(tasks, has_status(ReviewStatus::InProgress)),
    }
}

/// The id of the task that "next open" leads to.
pub fn next_open_task_id(display_tasks: &Vec<&ReviewTask>) -> (r: Option<String>)
    ensures
        match next_open_index(derefs(display_tasks@)) {
            Some(i) => r matches Some(id) && id@ == derefs(display_tasks@)[i].id@,
            None => r is None,
        },
{
    let i = match first_with_status(display_tasks, ReviewStatus::Todo) {
        Some(i) => i,
        None => match first_with_status(display_tasks, ReviewStatus::InProgress) {
            Some(i) => i,
            None => return None,
        },
    };
    assert(derefs(display_tasks@)[i as int] == *display_tasks@[i as int]);
    Some(display_tasks[i].id.clone())
}

/// What the center pane of the review screen shows.
#[derive(Clone, Copy, Debug, PartialEq, Eq, Structural)]
pub enum RightPaneState {
    TaskSelected,
    ReadyNoSelection,
    NoTasks,
    AllDone,
}

/// The center pane shows the selected task where it still exists; with a
/// stale selection it shows the ready screen; without one, an empty state,
/// an all-done state, or the ready screen.
pub open spec fn pane_state(
    selected: Option<String>,
    all_tasks: Seq<ReviewTask>,
    total_count: usize,
    open_count: usize,
) -> RightPaneState {
    match selected {
        Some(id) => if exists|i: int| 0 <= i < all_tasks.len() && all_tasks[i].id@ == id@ {
            RightPaneState::TaskSelected
        } else {
            RightPaneState::ReadyNoSelection
        },
        None => if total_count == 0 {
            RightPaneState::NoTasks
        } else if open_count == 0 {
            RightPaneState::AllDone
        } else {
            RightPaneState::ReadyNoSelection
        },
    }
}

/// What the center pane shows.
pub fn right_pane_state(
    selected: &Option<String>,
    all_tasks: &Vec<ReviewTask>,
    total_count: usize,
    open_count: usize,
) -> (r: RightPaneState)
    ensures
        r == pane_state(*selected, all_tasks@, total_count, open_count),
{
    match selected {
        Some(id) => {
            let mut i: usize = 0;
            while i < all_tasks.len()
                invariant
                    i <= all_tasks.len(),
                    *selected == Some(*id),
                    forall|j: int| 0 <= j < i ==> all_tasks@[j].id@ != id@,
                decreases all_tasks.len() - i,
            {
                if str_eq(all_tasks[i].id.as_str(), id.as_str()) {
                    assert(all_tasks@[i as int].id@ == id@);
                    return RightPaneState::TaskSelected;
                }
                i = i + 1;
            }
            RightPaneState::ReadyNoSelection
        },
        None => {
            if total_count == 0 {
                RightPaneState::NoTasks
            } else if open_count == 0 {
                RightPaneState::AllDone
            } else {
                RightPaneState::ReadyNoSelection
            }
        },
    }
}

/// The tasks of `tasks` that belong to run `run_id`.
pub open spec fn of_run(tasks: Seq<ReviewTask>, run_id: Seq<char>) -> Seq<ReviewTask>
    decreases tasks.len(),
{
    if tasks.len() == 0 {
        seq![]
    } else {
        of_run(tasks.drop_last(), run_id) + if tasks.last().run_id@ == run_id {
            seq![tasks.last()]
        } else {
            seq![]
        }
    }
}

proof fn lemma_of_run_len(tasks: Seq<ReviewTask>, run_id: Seq<char>)
    ensures
        of_run(tasks, run_id).len() <= tasks.len(),
    decreases tasks.len(),
{
    if tasks.len() > 0 {
        lemma_of_run_len(tasks.drop_last(), run_id);
    }
}

/// A review's progress on the home screen: of the tasks of its active run,
/// how many are done (closed), and how many there are. A review without an
/// active run has none.
pub fn review_progress(all_tasks: &Vec<ReviewTask>, active_run_id: &Option<String>) -> (r: (
    usize,
    usize,
))
    ensures
        match active_run_id {
            Some(id) => r.0 == count_status(of_run(all_tasks@, id@), is_closed_status()) && r.1
                == of_run(all_tasks@, id@).len(),
            None => r == (0usize, 0usize),
        },
{
    let id = match active_run_id {
        Some(id) => id,
        None => return (0, 0),
    };
    let mut done: usize = 0;
    let mut total: usize = 0;
    let mut i: usize = 0;
    while i < all_tasks.len()
        invariant
            i <= all_tasks.len(),
            done == count_status(of_run(all_tasks@.take(i as int), id@), is_closed_status()),
            total == of_run(all_tasks@.take(i as int), id@).len(),
        decreases all_tasks.len() - i,
    {
        proof {
            let pre = all_tasks@.take(i as int);
            assert(all_tasks@.take(i + 1).drop_last() == pre);
            lemma_of_run_len(pre, id@);
            lemma_count_status_le(of_run(pre, id@), is_closed_status());
        }
        if str_eq(all_tasks[i].run_id.as_str(), id.as_str()) {
            proof {
                let pre = all_tasks@.take(i as int);
                let now = all_tasks@.take(i + 1);
                assert(of_run(now, id@) == of_run(pre, id@).push(all_tasks@[i as int]));
                assert(of_run(now, id@).drop_last() == of_run(pre, id@));
            }
            if all_tasks[i].status.is_closed() {
                done = done + 1;
            }
            total = total + 1;
        } else {
            proof {
                let pre = all_tasks@.take(i as int);
                let now = all_tasks@.take(i + 1);
                assert(of_run(now, id@) == of_run(pre, id@));
            }
        }
        i = i + 1;
    }
    assert(all_tasks@.take(all_tasks.len() as int) == all_tasks@);
    (done, total)
}

/// A tab of the task pane.
#[derive(Clone, Copy, Debug, PartialEq, Eq, Structural)]
pub enum ReviewTab {
    Description,
    Diagram,
    Changes,
    Discussion,
}

/// The tab the task pane shows: the discussion while a thread is open, else
/// the tab last chosen for the task, else the description.
pub fn active_tab(stored: Option<ReviewTab>, thread_open: bool) -> (r: ReviewTab)
    ensures
        r == if thread_open {
            ReviewTab::Discussion
        } else {
            match stored {
                Some(t) => t,
                None => ReviewTab::Description,
            }
        },
{
    if thread_open {
        ReviewTab::Discussion
    } else {
        match stored {
            Some(t) => t,
            None => ReviewTab::Description,
        }
    }
}

/// The task has a diagram to show: one that is there and not empty.
pub open spec fn has_diagram(diagram: Option<String>) -> bool {
    diagram matches Some(d) && d@.len() > 0
}

/// The tabs of the task pane, in order: the description; the diagram where
/// the task has one; the changes where it has diff references; the
/// discussion.
pub fn visible_tabs(diagram: &Option<String>, has_diff_refs: bool) -> (r: Vec<ReviewTab>)
    ensures
        r@ == seq![ReviewTab::Description] + (if has_diagram(*diagram) {
            seq![ReviewTab::Diagram]
        } else {
            seq![]
        }) + (if has_diff_refs {
            seq![ReviewTab::Changes]
        } else {
            seq![]
        }) + seq![ReviewTab::Discussion],
{
    let mut tabs: Vec<ReviewTab> = Vec::new();
    tabs.push(ReviewTab::Description);
    let show_diagram = match diagram {
        Some(d) => !d.as_str().is_empty(),
        None => false,
    };
    if show_diagram {
        tabs.push(ReviewTab::Diagram);
    }
    if has_diff_refs {
        tabs.push(ReviewTab::Changes);
    }
    tabs.push(ReviewTab::Discussion);
    proof {
        let a: Seq<ReviewTab> = seq![ReviewTab::Description];
        let b: Seq<ReviewTab> = if has_diagram(*diagram) { seq![ReviewTab::Diagram] } else { seq![] };
        let c: Seq<ReviewTab> = if has_diff_refs { seq![ReviewTab::Changes] } else { seq![] };
        assert(tabs@ =~= a + b + c + seq![ReviewTab::Discussion]);
    }
    tabs
}

/// The number of threads of task `task_id` among `threads`.
pub open spec fn thread_count(threads: Seq<ReviewThread>, task_id: Seq<char>) -> nat
    decreases threads.len(),
{
    if threads.len() == 0 {
        0
    } else {
        thread_count(threads.drop_last(), task_id) + if opt_str(threads.last().task_id) == Some(
            task_id,
        ) {
            1nat
        } else {
            0nat
        }
    }
}

proof fn lemma_thread_count_le(threads: Seq<ReviewThread>, task_id: Seq<char>)
    ensures
        thread_count(threads, task_id) <= threads.len(),
    decreases threads.len(),
{
    if threads.len() > 0 {
        lemma_thread_count_le(threads.drop_last(), task_id);
    }
}

/// The label of the discussion tab: `Discussion`, with the number of the
/// task's threads in brackets where it has any.
pub open spec fn discussion_label_of(threads: Seq<ReviewThread>, task_id: Seq<char>) -> Seq<char> {
    let n = thread_count(threads, task_id);
    if n > 0 {
        "Discussion ("@ + decimal(n) + ")"@
    } else {
        "Discussion"@
    }
}

/// The label of the discussion tab.
pub fn discussion_label(threads: &Vec<ReviewThread>, task_id: &str) -> (r: String)
    ensures
        r@ == discussion_label_of(threads@, task_id@),
{
    let mut n: usize = 0;
    let mut i: usize = 0;
    while i < threads.len()
        invariant
            i <= threads.len(),
            n == thread_count(threads@.take(i as int), task_id@),
        decreases threads.len() - i,
    {
        proof {
            lemma_thread_count_le(threads@.take(i as int), task_id@);
            assert(threads@.take(i + 1).drop_last() == threads@.take(i as int));
        }
        let counts = match &threads[i].task_id {
            Some(t) => str_eq(t.as_str(), task_id),
            None => false,
        };
        if counts {
            n = n + 1;
        }
        i = i + 1;
    }
    assert(threads@.take(threads.len() as int) == threads@);
    if n > 0 {
        let mut out = chars_of("Discussion (");
        push_decimal(&mut out, n);
        push_str(&mut out, ")");
        string_from_chars(&out)
    } else {
        string_from_chars(&chars_of("Discussion"))
    }
}

/// The header of a sub-flow in the navigation tree.
pub struct SubFlowHeader {
    /// The sub-flow's name in upper case, `UNCATEGORIZED` for tasks of none.
    pub title: String,
    /// How many of its tasks are done (closed).
    pub finished: usize,
    /// How many tasks it has.
    pub total: usize,
    /// All of its tasks are done, and it has some.
    pub is_done: bool,
    /// `finished/total`.
    pub count: String,
    pub title_color: ThemeColor,
    pub count_color: ThemeColor,
}

/// The header of sub-flow `name` with `tasks`.
pub fn sub_flow_header(name: &Option<String>, tasks: &Vec<ReviewTask>) -> (r: SubFlowHeader)
    ensures
        r.title@ == upper_case(
            match name {
                Some(n) => n@,
                None => "UNCATEGORIZED"@,
            },
        ),
        r.finished == count_status(tasks@, is_closed_status()),
        r.total == tasks.len(),
        r.is_done == (r.finished == r.total && r.total > 0),
        r.count@ == decimal(r.finished as nat) + "/"@ + decimal(r.total as nat),
        r.title_color == if r.is_done {
            ThemeColor::TextMuted
        } else {
            ThemeColor::TextPrimary
        },
        r.count_color == if r.is_done {
            ThemeColor::Success
        } else {
            ThemeColor::TextMuted
        },
{
    let title = match name {
        Some(n) => to_upper(n.as_str()),
        None => to_upper("UNCATEGORIZED"),
    };
    let mut finished: usize = 0;
    let mut i: usize = 0;
    while i < tasks.len()
        invariant
            i <= tasks.len(),
            finished == count_status(tasks@.take(i as int), is_closed_status()),
        decreases tasks.len() - i,
    {
        proof {
            assert(tasks@.take(i + 1).drop_last() == tasks@.take(i as int));
            lemma_count_status_le(tasks@.take(i as int), is_closed_status());
        }
        if tasks[i].status.is_closed() {
            finished = finished + 1;
        }
        i = i + 1;
    }
    assert(tasks@.take(tasks.len() as int) == tasks@);
    let total = tasks.len();
    let is_done = finished == total && total > 0;
    let mut count: Vec<char> = Vec::new();
    push_decimal(&mut count, finished);
    push_str(&mut count, "/");
    push_decimal(&mut count, total);
    SubFlowHeader {
        title,
        finished,
        total,
        is_done,
        count: string_from_chars(&count),
        title_color: if is_done {
            ThemeColor::TextMuted
        } else {
            ThemeColor::TextPrimary
        },
        count_color: if is_done {
            ThemeColor::Success
        } else {
            ThemeColor::TextMuted
        },
    }
}

/// How a task's title reads in the navigation tree: its color, and whether
/// it is struck through. A done (closed) task is struck through and muted;
/// otherwise the selected task is in the primary color and the others in
/// the secondary one.
pub fn nav_title_style(is_selected: bool, status: ReviewStatus) -> (r: (ThemeColor, bool))
    ensures
        r == if status.spec_is_closed() {
            (ThemeColor::TextMuted, true)
        } else if is_selected {
            (ThemeColor::TextPrimary, false)
        } else {
            (ThemeColor::TextSecondary, false)
        },
{
    if status.is_closed() {
        (ThemeColor::TextMuted, true)
    } else if is_selected {
        (ThemeColor::TextPrimary, false)
    } else {
        (ThemeColor::TextSecondary, false)
    }
}

/// The empty center pane says that tasks are being generated when a run is
/// going on for the review that is selected (no review selected and a run
/// for no review counting as the same).
pub fn generating_this_review(
    is_generating: bool,
    selected_review_id: &Option<String>,
    generating_review_id: &Option<String>,
) -> (r: bool)
    ensures
        r == (is_generating && opt_str(*selected_review_id) == opt_str(*generating_review_id)),
{
    is_generating && match (selected_review_id, generating_review_id) {
        (Some(a), Some(b)) => str_eq(a.as_str(), b.as_str()),
        (None, None) => true,
        _ => false,
    }
}

/// What the older review screen does with the selection when it is drawn.
#[derive(Debug, PartialEq, Eq)]
pub enum AutoSelection {
    /// The selection names one of the listed tasks: it stays.
    Keep,
    /// No task is listed, or none is open: the selection (and the notes) are
    /// cleared.
    Clear,
    /// The selection names none of the listed tasks: the next open one is
    /// selected (the first to do, else the first in progress).
    Select(String),
}

/// The older review screen's choice: with no task listed the selection is
/// cleared; a selection among the listed tasks stays; otherwise the next
/// open task is selected, and where none is open the selection is cleared
/// (a done task is never picked).
pub fn legacy_auto_selection(selected: &Option<String>, display_tasks: &Vec<&ReviewTask>) -> (r:
    AutoSelection)
    ensures
        display_tasks.len() == 0 ==> r == AutoSelection::Clear,
        display_tasks.len() > 0 && (selected matches Some(id) && exists|i: int|
            0 <= i < display_tasks.len() && display_tasks@[i].id@ == id@) ==> r == AutoSelection::Keep,
        display_tasks.len() > 0 && !(selected matches Some(id) && exists|i: int|
            0 <= i < display_tasks.len() && display_tasks@[i].id@ == id@) ==> match next_open_index(
            derefs(display_tasks@),
        ) {
            Some(k) => r matches AutoSelection::Select(t) && t@ == derefs(display_tasks@)[k].id@,
            None => r == AutoSelection::Clear,
        },
{
    if display_tasks.len() == 0 {
        return AutoSelection::Clear;
    }
    let valid = match selected {
        Some(id) => {
            let mut found = false;
            let mut i: usize = 0;
            while i < display_tasks.len()
                invariant
                    i <= display_tasks.len(),
                    found == exists|j: int| 0 <= j < i && display_tasks@[j].id@ == id@,
                decreases display_tasks.len() - i,
            {
                if str_eq(display_tasks[i].id.as_str(), id.as_str()) {
                    found = true;
                }
                i = i + 1;
            }
            found
        },
        None => false,
    };
    if valid {
        return AutoSelection::Keep;
    }
    match next_open_task_id(display_tasks) {
        Some(id) => AutoSelection::Select(id),
        None => AutoSelection::Clear,
    }
}

/// The note shown once a task is selected on the older review screen: the
/// stored note's body, or an empty note where none is stored (or it cannot
/// be read).
pub fn note_after_select(stored_body: Option<String>) -> (r: String)
    ensures
        r@ == match stored_body {
            Some(b) => b@,
            None => Seq::<char>::empty(),
        },
{
    match stored_body {
        Some(b) => b,
        None => String::new(),
    }
}


/// A note being written on one line of a task's diff.
pub struct LineNoteContext {
    pub task_id: String,
    pub file_idx: usize,
    pub line_idx: usize,
    pub line_number: usize,
    pub file_path: String,
    pub note_text: String,
}

/// The selection and the notes of the older review screen.
pub struct NoteState {
    pub selected_task_id: Option<String>,
    pub current_note: Option<String>,
    pub current_line_note: Option<LineNoteContext>,
}

/// Selecting `task` on the older review screen, given the body of the note
/// stored for it (none where there is none or it cannot be read): the task
/// is selected, the line note cleared and the task's note shown (empty where
/// none was stored).
pub fn select_task_with_note(state: &mut NoteState, task: &ReviewTask, stored_body: Option<String>)
    ensures
        final(state).selected_task_id matches Some(id) && id@ == task.id@,
        final(state).current_line_note is None,
        final(state).current_note matches Some(n) && n@ == match stored_body {
            Some(b) => b@,
            None => Seq::<char>::empty(),
        },
{
    state.selected_task_id = Some(task.id.clone());
    state.current_line_note = None;
    state.current_note = Some(note_after_select(stored_body));
}

/// Clearing the selection of the older review screen, with its notes.
pub fn clear_selection(state: &mut NoteState)
    ensures
        final(state).selected_task_id is None,
        final(state).current_note is None,
        final(state).current_line_note is None,
{
    state.selected_task_id = None;
    state.current_note = None;
    state.current_line_note = None;
}

/// "Start Reviewing" on the ready pane, by a click or by Enter without
/// Shift: selects the next open task, where there is one.
pub fn start_reviewing(clicked: bool, enter: bool, shift: bool, next_open_id: Option<String>) -> (r:
    Option<crate::app::ReviewAction>)
    ensures
        ((clicked || (enter && !shift)) && next_open_id is Some) ==> (r matches Some(
            crate::app::ReviewAction::SelectTask { task_id },
        ) && Some(task_id) == next_open_id),
        !((clicked || (enter && !shift)) && next_open_id is Some) ==> r is None,
{
    if clicked || (enter && !shift) {
        match next_open_id {
            Some(id) => Some(crate::app::ReviewAction::SelectTask { task_id: id }),
            None => None,
        }
    } else {
        None
    }
}


} // verus!
