use lareview::domain::{Feedback, LinkedRepo, Review, ReviewStatus, ReviewTask, RiskLevel, TaskStats};
use lareview::generation::{plan_heading, repo_for_pending_review, timeline_shows, RepoChoice, TimelineKind};
use lareview::pr_send::{push_confirm_feedback, push_pending, send_to_pr_review};
use lareview::review_header::export_save_label;
use lareview::review_screen::{legacy_auto_selection, note_after_select, AutoSelection};
use lareview::visuals::{plan_panel_counter, plan_timeline_header, PlanStatus};

fn task(id: &str, status: ReviewStatus) -> ReviewTask {
    ReviewTask {
        id: id.to_string(),
        run_id: "run1".to_string(),
        title: id.to_string(),
        status,
        stats: TaskStats { risk: RiskLevel::Low },
        sub_flow: None,
    }
}

#[test]
fn older_screen_selection() {
    let a = task("a", ReviewStatus::Done);
    let b = task("b", ReviewStatus::InProgress);
    let c = task("c", ReviewStatus::Todo);
    let listed = vec![&a, &b, &c];
    assert_eq!(legacy_auto_selection(&Some("b".to_string()), &listed), AutoSelection::Keep);
    assert_eq!(legacy_auto_selection(&Some("zz".to_string()), &listed), AutoSelection::Select("c".to_string()));
    assert_eq!(legacy_auto_selection(&None, &vec![&a, &b]), AutoSelection::Select("b".to_string()));
    assert_eq!(legacy_auto_selection(&None, &vec![&a]), AutoSelection::Clear);
    assert_eq!(legacy_auto_selection(&Some("a".to_string()), &Vec::new()), AutoSelection::Clear);
    assert_eq!(note_after_select(Some("remember".to_string())), "remember");
    assert_eq!(note_after_select(None), "");
}

#[test]
fn pending_review_repository() {
    let linked = vec![
        LinkedRepo { id: "r1".to_string(), path: "/src/one".to_string() },
        LinkedRepo { id: "r2".to_string(), path: "/src/two".to_string() },
    ];
    assert_eq!(repo_for_pending_review(&linked, "/src/two"), RepoChoice::Select("r2".to_string()));
    assert_eq!(repo_for_pending_review(&linked, "/src/three"), RepoChoice::Link);
}

#[test]
fn overlays_with_nothing_to_show() {
    let feedbacks = vec![Feedback { id: "f1".to_string(), task_id: None, anchor: None }];
    assert_eq!(push_confirm_feedback(&feedbacks, "f1"), Some(0));
    assert_eq!(push_confirm_feedback(&feedbacks, "f2"), None);
    assert!(push_pending(&Some("f1".to_string()), "f1"));
    assert!(!push_pending(&Some("f2".to_string()), "f1"));
    assert!(!push_pending(&None, "f1"));
    let reviews = vec![Review { id: "rev1".to_string(), title: "T".to_string(), created_at: "now".to_string() }];
    assert_eq!(send_to_pr_review(&reviews, &Some("rev1".to_string())), Some(0));
    assert_eq!(send_to_pr_review(&reviews, &Some("rev2".to_string())), None);
    assert_eq!(send_to_pr_review(&reviews, &None), None);
}

#[test]
fn export_save_button() {
    assert_eq!(export_save_label(true, 0), "Saved!");
    assert_eq!(export_save_label(true, 179), "Saved!");
    assert_eq!(export_save_label(true, 180), "Save Review...");
    assert_eq!(export_save_label(false, 0), "Save Review...");
}

#[test]
fn plan_and_timeline_labels() {
    let steps = vec![PlanStatus::Completed, PlanStatus::Pending, PlanStatus::InProgress];
    assert_eq!(plan_panel_counter(&steps).as_deref(), Some("1/3"));
    assert_eq!(plan_panel_counter(&Vec::new()), None);
    assert_eq!(plan_timeline_header(&steps), "Plan (1/3)");
    assert_eq!(plan_timeline_header(&Vec::new()), "Plan updated");
    assert_eq!(plan_heading(1), "Review Plan (1 steps)");
    assert!(!timeline_shows(TimelineKind::LocalLog));
    assert!(!timeline_shows(TimelineKind::AvailableCommands));
    assert!(!timeline_shows(TimelineKind::CurrentMode));
    assert!(timeline_shows(TimelineKind::ToolCall));
    assert!(timeline_shows(TimelineKind::Other));
}
