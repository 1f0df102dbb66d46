use lareview::domain::{ReviewStatus, ReviewTask, ReviewThread, RiskLevel, TaskStats, ThreadImpact};
use lareview::review_screen::{
    active_tab, discussion_label, generating_this_review, nav_title_style, sub_flow_header, visible_tabs, ReviewTab,
};
use lareview::visuals::{list_impact_visuals, risk_badge, risk_nav_visuals, task_status_visuals, Icon, ThemeColor};

fn thread(id: &str, task: Option<&str>) -> ReviewThread {
    ReviewThread { id: id.to_string(), task_id: task.map(|t| t.to_string()), anchor: None }
}

#[test]
fn open_thread_forces_discussion_tab() {
    assert_eq!(active_tab(Some(ReviewTab::Changes), true), ReviewTab::Discussion);
    assert_eq!(active_tab(Some(ReviewTab::Changes), false), ReviewTab::Changes);
    assert_eq!(active_tab(None, false), ReviewTab::Description);
}

#[test]
fn tabs_depend_on_diagram_and_changes() {
    let (d, g, c, t) = (ReviewTab::Description, ReviewTab::Diagram, ReviewTab::Changes, ReviewTab::Discussion);
    assert_eq!(visible_tabs(&None, false), vec![d, t]);
    assert_eq!(visible_tabs(&Some(String::new()), true), vec![d, c, t]);
    assert_eq!(visible_tabs(&Some("a -> b".to_string()), true), vec![d, g, c, t]);
}

#[test]
fn discussion_tab_counts_threads_of_the_task() {
    let threads = vec![thread("h1", Some("t1")), thread("h2", Some("t2")), thread("h3", Some("t1")), thread("h4", None)];
    assert_eq!(discussion_label(&threads, "t1"), "Discussion (2)");
    assert_eq!(discussion_label(&threads, "t3"), "Discussion");
    assert_eq!(discussion_label(&Vec::new(), "t1"), "Discussion");
}

#[test]
fn risk_and_status_badges() {
    let b = risk_badge(RiskLevel::Medium);
    assert_eq!((b.label, b.icon, b.color), ("Med risk", Icon::RiskMedium, ThemeColor::Warning));
    let n = risk_nav_visuals(RiskLevel::High);
    assert_eq!((n.label, n.icon, n.color), ("High Risk", Icon::RiskHigh, ThemeColor::Destructive));
    let l = risk_nav_visuals(RiskLevel::Low);
    assert_eq!((l.label, l.color), ("Low Risk", ThemeColor::Accent));
    let s = task_status_visuals(ReviewStatus::Ignored);
    assert_eq!((s.label, s.icon, s.color), ("Ignored", Icon::StatusIgnored, ThemeColor::Destructive));
    let t = task_status_visuals(ReviewStatus::Todo);
    assert_eq!(t.color, ThemeColor::TextMuted);
}

#[test]
fn list_impact_labels() {
    let v = list_impact_visuals(ThreadImpact::NiceToHave);
    assert_eq!((v.label, v.icon, v.color), ("Nice-to-have", Icon::ImpactNiceToHave, ThemeColor::Warning));
    let v = list_impact_visuals(ThreadImpact::Nitpick);
    assert_eq!((v.label, v.color), ("Nitpick", ThemeColor::TextMuted));
}

fn task(id: &str, status: ReviewStatus) -> ReviewTask {
    ReviewTask {
        id: id.to_string(),
        run_id: "run1".to_string(),
        title: id.to_string(),
        status,
        stats: TaskStats { risk: RiskLevel::Low },
        sub_flow: None,
    }
}

#[test]
fn sub_flow_headers() {
    let tasks = vec![task("a", ReviewStatus::Done), task("b", ReviewStatus::Todo), task("c", ReviewStatus::Ignored)];
    let h = sub_flow_header(&Some("Backend api".to_string()), &tasks);
    assert_eq!(h.title, "BACKEND API");
    assert_eq!((h.finished, h.total, h.is_done), (2, 3, false));
    assert_eq!(h.count, "2/3");
    assert_eq!((h.title_color, h.count_color), (ThemeColor::TextPrimary, ThemeColor::TextMuted));
    let done = vec![task("a", ReviewStatus::Done)];
    let h = sub_flow_header(&None, &done);
    assert_eq!(h.title, "UNCATEGORIZED");
    assert!(h.is_done);
    assert_eq!(h.count, "1/1");
    assert_eq!((h.title_color, h.count_color), (ThemeColor::TextMuted, ThemeColor::Success));
    let empty = sub_flow_header(&Some("straße".to_string()), &Vec::new());
    assert_eq!(empty.title, "STRASSE");
    assert!(!empty.is_done);
    assert_eq!(empty.count, "0/0");
}

#[test]
fn nav_titles() {
    assert_eq!(nav_title_style(true, ReviewStatus::Done), (ThemeColor::TextMuted, true));
    assert_eq!(nav_title_style(true, ReviewStatus::InProgress), (ThemeColor::TextPrimary, false));
    assert_eq!(nav_title_style(false, ReviewStatus::Todo), (ThemeColor::TextSecondary, false));
}

#[test]
fn generating_applies_to_the_selected_review() {
    let r1 = Some("r1".to_string());
    assert!(generating_this_review(true, &r1, &Some("r1".to_string())));
    assert!(!generating_this_review(true, &r1, &Some("r2".to_string())));
    assert!(!generating_this_review(false, &r1, &r1));
    assert!(generating_this_review(true, &None, &None));
    assert!(!generating_this_review(true, &None, &r1));
}
