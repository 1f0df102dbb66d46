//! The application's state as the review and generation screens read it, and
//! the actions those screens dispatch.
use vstd::prelude::*;
use crate::diff_snippet::{diff_snippet, diff_snippet_for_anchor};
use crate::unidiff_safety::unidiff_reads_safely;
use crate::domain::{FeedbackSide, ReviewRun, ReviewTask};
use crate::search::{first_match, lemma_first_match_at, lemma_first_match_none};
use crate::text::{str_eq, trim};

verus! {

/// An action of the generation screen.
pub enum GenerateAction {
    Reset,
    RunRequested,
}

/// An action of the review screen.
pub enum ReviewAction {
    SelectTask { task_id: String },
    ClearSelection,
    CreateFeedbackComment {
        task_id: String,
        feedback_id: Option<String>,
        file_path: Option<String>,
        line_number: Option<u32>,
        side: Option<FeedbackSide>,
        title: Option<String>,
        body: String,
    },
    CreateThreadComment {
        task_id: String,
        thread_id: Option<String>,
        file_path: Option<String>,
        line_number: Option<u32>,
        title: Option<String>,
        body: String,
    },
    ClearThreadReplyDraft,
    UpdateFeedbackTitle { feedback_id: String, title: String },
    OpenThread {
        task_id: String,
        thread_id: Option<String>,
        file_path: Option<String>,
        line_number: Option<u32>,
    },
    UpdateThreadTitle { thread_id: String, title: String },
}

/// An action that a screen hands to the application.
pub enum Action {
    Generate(GenerateAction),
    Review(ReviewAction),
}

/// The state that the screens read.
pub struct AppState {
    pub tasks: Vec<ReviewTask>,
    pub runs: Vec<ReviewRun>,
    pub selected_task_id: Option<String>,
    pub is_exporting: bool,
}

/// The application: its state, and the actions dispatched to it, in order.
pub struct LaReviewApp {
    pub state: AppState,
    pub dispatched: Vec<Action>,
}

pub open spec fn task_has_id(id: Seq<char>) -> spec_fn(ReviewTask) -> bool {
    |t: ReviewTask| t.id@ == id
}

pub open spec fn run_has_id(id: Seq<char>) -> spec_fn(ReviewRun) -> bool {
    |r: ReviewRun| r.id@ == id
}

/// The run whose diff holds the anchors of task `task_id`: the first run
/// with the run id of the first task with that id.
pub open spec fn anchor_run(s: AppState, task_id: Seq<char>) -> Option<int> {
    match first_match(s.tasks@, task_has_id(task_id)) {
        None => None,
        Some(ti) => first_match(s.runs@, run_has_id(s.tasks@[ti].run_id@)),
    }
}

/// `after` is `before` with one more action: selecting the task `id`.
pub open spec fn appended_selection(before: Seq<Action>, after: Seq<Action>, id: Seq<char>) -> bool {
    &&& after.len() == before.len() + 1
    &&& after.take(before.len() as int) == before
    &&& after.last() matches Action::Review(ReviewAction::SelectTask { task_id }) && task_id@ == id
}

/// The selected task is one of `tasks`.
pub open spec fn selection_valid(selected: Option<String>, tasks: Seq<&ReviewTask>) -> bool {
    match selected {
        Some(id) => exists|i: int| 0 <= i < tasks.len() && tasks[i].id@ == id@,
        None => false,
    }
}

fn find_task(tasks: &[ReviewTask], id: &str) -> (r: Option<usize>)
    ensures
        match r {
            Some(i) => i < tasks.len() && first_match(tasks@, task_has_id(id@)) == Some(i as int),
            None => first_match(tasks@, task_has_id(id@)) is None,
        },
{
    let ghost p = task_has_id(id@);
    let mut i: usize = 0;
    while i < tasks.len()
        invariant
            i <= tasks.len(),
            p == task_has_id(id@),
            forall|j: int| 0 <= j < i ==> !p(#[trigger] tasks@[j]),
        decreases tasks.len() - i,
    {
        if str_eq(tasks[i].id.as_str(), id) {
            proof {
                lemma_first_match_at(tasks@, p, i as int);
            }
            return Some(i);
        }
        i = i + 1;
    }
    proof {
        lemma_first_match_none(tasks@, p);
    }
    None
}

fn find_run(runs: &Vec<ReviewRun>, id: &str) -> (r: Option<usize>)
    ensures
        match r {
            Some(i) => i < runs.len() && first_match(runs@, run_has_id(id@)) == Some(i as int),
            None => first_match(runs@, run_has_id(id@)) is None,
        },
{
    let ghost p = run_has_id(id@);
    let mut i: usize = 0;
    while i < runs.len()
        invariant
            i <= runs.len(),
            p == run_has_id(id@),
            forall|j: int| 0 <= j < i ==> !p(#[trigger] runs@[j]),
        decreases runs.len() - i,
    {
        if str_eq(runs[i].id.as_str(), id) {
            proof {
                lemma_first_match_at(runs@, p, i as int);
            }
            return Some(i);
        }
        i = i + 1;
    }
    proof {
        lemma_first_match_none(runs@, p);
    }
    None
}

impl LaReviewApp {
    /// Hands `action` to the application.
    pub fn dispatch(&mut self, action: Action)
        ensures
            final(self).dispatched@ == old(self).dispatched@.push(action),
            final(self).state == old(self).state,
    {
        self.dispatched.push(action);
    }

    /// Asks for the generation screen to start over.
    pub fn reset_generation_state(&mut self)
        ensures
            final(self).dispatched@ == old(self).dispatched@.push(
                Action::Generate(GenerateAction::Reset),
            ),
            final(self).state == old(self).state,
    {
        self.dispatch(Action::Generate(GenerateAction::Reset));
    }

    /// Asks for a generation run to start.
    pub fn start_generation_async(&mut self)
        ensures
            final(self).dispatched@ == old(self).dispatched@.push(
                Action::Generate(GenerateAction::RunRequested),
            ),
            final(self).state == old(self).state,
    {
        self.dispatch(Action::Generate(GenerateAction::RunRequested));
    }

    /// Asks for `task` to be selected.
    pub fn select_task(&mut self, task: &ReviewTask)
        ensures
            appended_selection(old(self).dispatched@, final(self).dispatched@, task.id@),
            final(self).state == old(self).state,
    {
        let ghost before = self.dispatched@;
        self.dispatch(Action::Review(ReviewAction::SelectTask { task_id: task.id.clone() }));
        assert(self.dispatched@.take(before.len() as int) == before);
    }

    /// Selects the first of `all_tasks` with id `task_id`, if there is one.
    pub fn select_task_by_id(&mut self, all_tasks: &[ReviewTask], task_id: &str)
        ensures
            final(self).state == old(self).state,
            match first_match(all_tasks@, task_has_id(task_id@)) {
                Some(_) => appended_selection(
                    old(self).dispatched@,
                    final(self).dispatched@,
                    task_id@,
                ),
                None => final(self).dispatched@ == old(self).dispatched@,
            },
    {
        if let Some(i) = find_task(all_tasks, task_id) {
            self.select_task(&all_tasks[i]);
        }
    }

    /// Clears a selection that names none of `display_tasks`, unless an
    /// export is under way.
    pub fn handle_auto_selection(
        &mut self,
        display_tasks: &[&ReviewTask],
        _next_open_id: Option<String>,
    )
        ensures
            final(self).state == old(self).state,
            if old(self).state.selected_task_id is Some && !selection_valid(
                old(self).state.selected_task_id,
                display_tasks@,
            ) && !old(self).state.is_exporting {
                final(self).dispatched@ == old(self).dispatched@.push(
                    Action::Review(ReviewAction::ClearSelection),
                )
            } else {
                final(self).dispatched@ == old(self).dispatched@
            },
    {
        let valid = match &self.state.selected_task_id {
            Some(id) => {
                let mut found = false;
                let mut i: usize = 0;
                while i < display_tasks.len()
                    invariant
                        i <= display_tasks.len(),
                        found == exists|j: int| 0 <= j < i && display_tasks@[j].id@ == id@,
                    decreases display_tasks.len() - i,
                {
                    if str_eq(display_tasks[i].id.as_str(), id.as_str()) {
                        found = true;
                    }
                    i = i + 1;
                }
                found
            },
            None => false,
        };
        if !valid && !self.state.is_exporting && self.state.selected_task_id.is_some() {
            self.dispatch(Action::Review(ReviewAction::ClearSelection));
        }
    }

    /// The diff snippet around line `line_number` of `file_path` in the diff
    /// of the run that task `task_id` belongs to.
    pub fn feedback_diff_snippet(&self, task_id: &str, file_path: &str, line_number: u32) -> (r:
        Option<String>)
        requires
            anchor_run(self.state, task_id@) matches Some(ri) ==> unidiff_reads_safely(
                trim(self.state.runs@[ri].diff_text@),
            ),
        ensures
            match anchor_run(self.state, task_id@) {
                None => r is None,
                Some(ri) => match r {
                    Some(s) => diff_snippet(
                        self.state.runs@[ri].diff_text@,
                        file_path@,
                        line_number as usize,
                    ) == Some(s@),
                    None => diff_snippet(
                        self.state.runs@[ri].diff_text@,
                        file_path@,
                        line_number as usize,
                    ) is None,
                },
            },
    {
        let ti = match find_task(self.state.tasks.as_slice(), task_id) {
            Some(i) => i,
            None => return None,
        };
        let ri = match find_run(&self.state.runs, self.state.tasks[ti].run_id.as_str()) {
            Some(i) => i,
            None => return None,
        };
        diff_snippet_for_anchor(self.state.runs[ri].diff_text.as_str(), file_path, line_number)
    }

    /// The diff snippet shown beside a thread; the same as for feedback.
    pub fn thread_diff_snippet(&self, task_id: &str, file_path: &str, line_number: u32) -> (r:
        Option<String>)
        requires
            anchor_run(self.state, task_id@) matches Some(ri) ==> unidiff_reads_safely(
                trim(self.state.runs@[ri].diff_text@),
            ),
        ensures
            match anchor_run(self.state, task_id@) {
                None => r is None,
                Some(ri) => match r {
                    Some(s) => diff_snippet(
                        self.state.runs@[ri].diff_text@,
                        file_path@,
                        line_number as usize,
                    ) == Some(s@),
                    None => diff_snippet(
                        self.state.runs@[ri].diff_text@,
                        file_path@,
                        line_number as usize,
                    ) is None,
                },
            },
    {
        self.feedback_diff_snippet(task_id, file_path, line_number)
    }
}

} // verus!
