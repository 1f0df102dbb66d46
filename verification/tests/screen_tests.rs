use lareview::domain::{
    pr_eligible, FeedbackAnchor, FeedbackSide, ReviewStatus, ReviewTask, RiskLevel, TaskStats,
    ThreadImpact,
};
use lareview::review_screen::{
    next_open_task_id, review_progress, right_pane_state, task_progress, RightPaneState,
};
use lareview::settings::{env_entry_addable, env_value_display};
use lareview::visuals::{
    impact_options, impact_visuals, plan_entry_style, plan_progress, status_options,
    status_visuals, Icon, PlanStatus, ThemeColor,
};

fn task(id: &str, run: &str, status: ReviewStatus) -> ReviewTask {
    ReviewTask {
        id: id.to_string(),
        run_id: run.to_string(),
        title: id.to_string(),
        status,
        stats: TaskStats { risk: RiskLevel::Medium },
        sub_flow: None,
    }
}

#[test]
fn progress_counts_closed_and_open() {
    let ts = vec![
        task("a", "r", ReviewStatus::Done),
        task("b", "r", ReviewStatus::Ignored),
        task("c", "r", ReviewStatus::InProgress),
        task("d", "r", ReviewStatus::Todo),
        task("e", "r", ReviewStatus::Todo),
    ];
    let refs: Vec<&ReviewTask> = ts.iter().collect();
    assert_eq!(task_progress(&refs), (2, 3));
    assert_eq!(task_progress(&Vec::new()), (0, 0));
}

#[test]
fn next_open_prefers_todo_over_in_progress() {
    let ts = vec![
        task("a", "r", ReviewStatus::Done),
        task("b", "r", ReviewStatus::InProgress),
        task("c", "r", ReviewStatus::Todo),
    ];
    let refs: Vec<&ReviewTask> = ts.iter().collect();
    assert_eq!(next_open_task_id(&refs), Some("c".to_string()));
    let refs: Vec<&ReviewTask> = ts[..2].iter().collect();
    assert_eq!(next_open_task_id(&refs), Some("b".to_string()));
    let refs: Vec<&ReviewTask> = ts[..1].iter().collect();
    assert_eq!(next_open_task_id(&refs), None);
}

#[test]
fn center_pane_states() {
    let ts = vec![task("a", "r", ReviewStatus::Todo)];
    assert_eq!(right_pane_state(&Some("a".to_string()), &ts, 1, 1), RightPaneState::TaskSelected);
    assert_eq!(right_pane_state(&Some("x".to_string()), &ts, 1, 1), RightPaneState::ReadyNoSelection);
    assert_eq!(right_pane_state(&None, &ts, 0, 0), RightPaneState::NoTasks);
    assert_eq!(right_pane_state(&None, &ts, 3, 0), RightPaneState::AllDone);
    assert_eq!(right_pane_state(&None, &ts, 3, 1), RightPaneState::ReadyNoSelection);
}

#[test]
fn review_row_counts_tasks_of_the_active_run() {
    let ts = vec![
        task("a", "r1", ReviewStatus::Done),
        task("b", "r2", ReviewStatus::Done),
        task("c", "r1", ReviewStatus::Todo),
    ];
    assert_eq!(review_progress(&ts, &Some("r1".to_string())), (1, 2));
    assert_eq!(review_progress(&ts, &Some("r3".to_string())), (0, 0));
    assert_eq!(review_progress(&ts, &None), (0, 0));
}

#[test]
fn visuals_of_statuses_and_impacts() {
    let v = status_visuals(ReviewStatus::InProgress);
    assert_eq!((v.label, v.icon, v.color), ("In Progress", Icon::StatusWip, ThemeColor::Accent));
    let v = status_visuals(ReviewStatus::Ignored);
    assert_eq!((v.label, v.icon, v.color), ("Ignored", Icon::StatusIgnored, ThemeColor::TextMuted));
    let v = impact_visuals(ThreadImpact::NiceToHave);
    assert_eq!((v.label, v.icon, v.color), ("Nice to have", Icon::ImpactNiceToHave, ThemeColor::Brand));

    let opts = status_options();
    let labels: Vec<&str> = opts.iter().map(|o| o.label).collect();
    assert_eq!(labels, vec!["To Do", "In Progress", "Done", "Ignored"]);
    assert_eq!(opts[2].value, ReviewStatus::Done);
    assert_eq!(opts[0].icon, Some(Icon::StatusTodo));
    let opts = impact_options();
    let labels: Vec<&str> = opts.iter().map(|o| o.label).collect();
    assert_eq!(labels, vec!["Blocking", "Nice to have", "Nitpick"]);
    assert_eq!(opts[0].fg, ThemeColor::Destructive);
}

#[test]
fn plan_styles_and_progress() {
    assert_eq!(plan_entry_style(PlanStatus::Completed), (Icon::StatusDone, ThemeColor::StatusDone, "done"));
    assert_eq!(plan_entry_style(PlanStatus::InProgress).2, "doing");
    assert_eq!(plan_entry_style(PlanStatus::Pending), (Icon::StatusInProgress, ThemeColor::StatusTodo, "todo"));
    assert_eq!(plan_progress(&vec![PlanStatus::Completed, PlanStatus::Pending]), (1, 2));
}

#[test]
fn settings_and_feedback_decisions() {
    assert_eq!(env_value_display("short"), "short");
    assert_eq!(env_value_display("0123456789"), "0123456789");
    assert_eq!(env_value_display("0123456789a"), "*******");
    assert_eq!(env_value_display("ééééé é"), "*******");
    assert!(env_entry_addable("K", "v"));
    assert!(!env_entry_addable("", "v"));
    assert!(!env_entry_addable("K", ""));

    let full = FeedbackAnchor {
        file_path: Some("a.rs".to_string()),
        line_number: Some(3),
        side: Some(FeedbackSide::New),
    };
    assert!(pr_eligible(&Some(full)));
    let partial = FeedbackAnchor { file_path: Some("a.rs".to_string()), line_number: Some(3), side: None };
    assert!(!pr_eligible(&Some(partial)));
    assert!(!pr_eligible(&None));
}
