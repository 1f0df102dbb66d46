use lareview::app::{Action, AppState, GenerateAction, LaReviewApp, ReviewAction};
use lareview::domain::{ReviewRun, ReviewStatus, ReviewTask, RiskLevel, TaskStats};

fn task(id: &str, run_id: &str) -> ReviewTask {
    ReviewTask {
        id: id.to_string(),
        run_id: run_id.to_string(),
        title: id.to_string(),
        status: ReviewStatus::Todo,
        stats: TaskStats { risk: RiskLevel::Low },
        sub_flow: None,
    }
}

fn app(selected: Option<&str>, is_exporting: bool) -> LaReviewApp {
    LaReviewApp {
        state: AppState {
            tasks: vec![task("t1", "r1"), task("t2", "r2"), task("t3", "missing")],
            runs: vec![
                ReviewRun {
                    id: "r1".to_string(),
                    review_id: "rev".to_string(),
                    agent_id: "agent".to_string(),
                    diff_text: "--- a/src/lib.rs\n+++ b/src/lib.rs\n@@ -1,2 +1,2 @@\n fn a() {}\n-fn b() {}\n+fn c() {}\n".to_string(),
                },
                ReviewRun {
                    id: "r2".to_string(),
                    review_id: "rev".to_string(),
                    agent_id: "agent".to_string(),
                    diff_text: "".to_string(),
                },
            ],
            selected_task_id: selected.map(|s| s.to_string()),
            is_exporting,
        },
        dispatched: Vec::new(),
    }
}

#[test]
fn start_generation_async_requests_a_run() {
    let mut a = app(None, false);
    a.start_generation_async();
    a.reset_generation_state();
    assert!(matches!(a.dispatched[0], Action::Generate(GenerateAction::RunRequested)));
    assert!(matches!(a.dispatched[1], Action::Generate(GenerateAction::Reset)));
    assert_eq!(a.dispatched.len(), 2);
}

#[test]
fn select_task_by_id_selects_only_known_tasks() {
    let mut a = app(None, false);
    let tasks = a.state.tasks.iter().map(|t| task(&t.id, &t.run_id)).collect::<Vec<_>>();
    a.select_task_by_id(&tasks, "nope");
    assert!(a.dispatched.is_empty());
    a.select_task_by_id(&tasks, "t2");
    match &a.dispatched[0] {
        Action::Review(ReviewAction::SelectTask { task_id }) => assert_eq!(task_id, "t2"),
        _ => panic!("expected a selection"),
    }
}

#[test]
fn stale_selection_is_cleared_unless_exporting() {
    let shown = task("t1", "r1");
    let mut a = app(Some("gone"), false);
    a.handle_auto_selection(&[&shown], None);
    assert!(matches!(a.dispatched[..], [Action::Review(ReviewAction::ClearSelection)]));

    let mut a = app(Some("gone"), true);
    a.handle_auto_selection(&[&shown], None);
    assert!(a.dispatched.is_empty());

    let mut a = app(Some("t1"), false);
    a.handle_auto_selection(&[&shown], None);
    assert!(a.dispatched.is_empty());

    let mut a = app(None, false);
    a.handle_auto_selection(&[&shown], None);
    assert!(a.dispatched.is_empty());
}

#[test]
fn snippet_comes_from_the_task_run() {
    let a = app(None, false);
    let s = a.feedback_diff_snippet("t1", "src/lib.rs", 2).unwrap();
    assert_eq!(
        s,
        "diff --git a/src/lib.rs b/src/lib.rs\n--- a/src/lib.rs\n+++ b/src/lib.rs\n@@ -1,2 +1,2 @@\n fn a() {}\n-fn b() {}\n+fn c() {}\n"
    );
    assert_eq!(a.thread_diff_snippet("t1", "lib.rs", 2), Some(s));
    assert!(a.feedback_diff_snippet("t2", "src/lib.rs", 2).is_none());
    assert!(a.feedback_diff_snippet("t3", "src/lib.rs", 2).is_none());
    assert!(a.feedback_diff_snippet("t9", "src/lib.rs", 2).is_none());
}
