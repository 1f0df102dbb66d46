use lareview::app::ReviewAction;
use lareview::detail_views::{anchor_location_label, feedback_reply_action};
use lareview::domain::{LinkedRepo, Review, ReviewStatus, ReviewTask, RiskLevel, TaskStats};
use lareview::generation::{
    run_done, selected_repo_after, take_pending_review, PendingReview, PendingStep, RunDone, RunResult,
};
use lareview::review_header::review_selector;
use lareview::review_screen::{
    clear_selection, right_pane_state, select_task_with_note, start_reviewing, NoteState, RightPaneState,
};
use lareview::visuals::{plan_panel_counter, PlanStatus};

fn review(id: &str, title: &str, created: &str) -> Review {
    Review { id: id.to_string(), title: title.to_string(), created_at: created.to_string() }
}

#[test]
fn header_selector_cases() {
    assert_eq!(review_selector(&Vec::new(), &None), None);
    let one = vec![review("rev1", "Test Review", "now")];
    assert_eq!(review_selector(&one, &None).as_deref(), Some("Select review…"));
    let sel = vec![review("rev1", "Selected Review", "now")];
    assert_eq!(review_selector(&sel, &Some("rev1".to_string())).as_deref(), Some("Selected Review"));
    let multiple = vec![
        review("rev1", "Review 1", "2024-01-01T00:00:00Z"),
        review("rev2", "Review 2", "2024-01-02T00:00:00Z"),
    ];
    assert_eq!(review_selector(&multiple, &Some("rev1".to_string())).as_deref(), Some("Review 1"));
}

#[test]
fn plan_panel_of_two_steps() {
    let steps = vec![PlanStatus::Completed, PlanStatus::InProgress];
    assert_eq!(plan_panel_counter(&steps).as_deref(), Some("1/2"));
}

#[test]
fn reply_composer_with_an_empty_draft_sends_nothing() {
    assert!(feedback_reply_action("task1", None, None, None, None, "", "").is_none());
}

#[test]
fn feedback_context_location() {
    assert_eq!(anchor_location_label(&Some("src/main.rs".to_string()), Some(10)).as_deref(), Some("main.rs:10"));
}

#[test]
fn ready_center_pane_and_enter() {
    assert_eq!(right_pane_state(&None, &Vec::new(), 1, 1), RightPaneState::ReadyNoSelection);
    match start_reviewing(false, true, false, Some("t1".to_string())) {
        Some(ReviewAction::SelectTask { task_id }) => assert_eq!(task_id, "t1"),
        _ => panic!("expected the next task to be selected"),
    }
    assert!(start_reviewing(false, true, true, Some("t1".to_string())).is_none());
    assert!(start_reviewing(true, false, false, None).is_none());
}

#[test]
fn finished_runs() {
    let res = RunResult { messages: vec!["m".to_string()], thoughts: Vec::new(), logs: vec!["agent log".to_string()] };
    match run_done("Invoking A via `a`", Ok(res)) {
        RunDone::Finished(p) => {
            assert_eq!(p.logs, vec!["Invoking A via `a`".to_string(), "agent log".to_string()]);
            assert_eq!(p.messages, vec!["m".to_string()]);
        }
        RunDone::Failed(_) => panic!("expected a result"),
    }
    match run_done("x", Err("timeout".to_string())) {
        RunDone::Failed(m) => assert_eq!(m, "Generation failed: timeout"),
        RunDone::Finished(_) => panic!("expected a failure"),
    }
}

#[test]
fn pending_review_update() {
    let linked = vec![LinkedRepo { id: "r1".to_string(), path: "/src/one".to_string() }];
    let mut pending = Some(PendingReview { repo_root: Some("/src/one".to_string()) });
    assert_eq!(take_pending_review(&mut pending, &linked, false), PendingStep::Nothing);
    assert!(pending.is_some());
    let step = take_pending_review(&mut pending, &linked, true);
    assert_eq!(step, PendingStep::SelectRepo("r1".to_string()));
    assert!(pending.is_none());
    let mut selected = None;
    selected_repo_after(&mut selected, &step, None);
    assert_eq!(selected.as_deref(), Some("r1"));

    let mut pending = Some(PendingReview { repo_root: Some("/src/new".to_string()) });
    let step = take_pending_review(&mut pending, &linked, true);
    assert_eq!(step, PendingStep::LinkRepo("/src/new".to_string()));
    let mut selected = Some("r1".to_string());
    selected_repo_after(&mut selected, &step, None);
    assert_eq!(selected.as_deref(), Some("r1"));
    selected_repo_after(&mut selected, &step, Some("r2".to_string()));
    assert_eq!(selected.as_deref(), Some("r2"));

    let mut pending = Some(PendingReview { repo_root: None });
    assert_eq!(take_pending_review(&mut pending, &linked, true), PendingStep::Nothing);
    assert!(pending.is_none());
}

#[test]
fn selecting_a_task_sets_its_note() {
    let task = ReviewTask {
        id: "t1".to_string(),
        run_id: "run".to_string(),
        title: "T".to_string(),
        status: ReviewStatus::Todo,
        stats: TaskStats { risk: RiskLevel::Low },
        sub_flow: None,
    };
    let mut state = NoteState { selected_task_id: None, current_note: None, current_line_note: None };
    select_task_with_note(&mut state, &task, Some("body".to_string()));
    assert_eq!(state.selected_task_id.as_deref(), Some("t1"));
    assert_eq!(state.current_note.as_deref(), Some("body"));
    select_task_with_note(&mut state, &task, None);
    assert_eq!(state.current_note.as_deref(), Some(""));
    assert!(state.current_line_note.is_none());
    clear_selection(&mut state);
    assert!(state.selected_task_id.is_none() && state.current_note.is_none());
}
