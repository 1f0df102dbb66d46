use lareview::app::ReviewAction;
use lareview::detail_views::{
    anchor_location_label, composer_side, feedback_reply_action, feedback_title_commit, thread_title_commit, find_feedback, find_thread,
    thread_reply_actions, view_notes_action, FeedbackDetailView, ThreadDetailView,
};
use lareview::domain::{Feedback, FeedbackAnchor, FeedbackSide, ReviewThread};

fn anchor(path: &str, line: u32, side: Option<FeedbackSide>) -> Option<FeedbackAnchor> {
    Some(FeedbackAnchor { file_path: Some(path.to_string()), line_number: Some(line), side })
}

fn feedback(id: &str, task: &str, a: Option<FeedbackAnchor>) -> Feedback {
    Feedback { id: id.to_string(), task_id: Some(task.to_string()), anchor: a }
}

fn thread(id: &str, task: Option<&str>, a: Option<FeedbackAnchor>) -> ReviewThread {
    ReviewThread { id: id.to_string(), task_id: task.map(|t| t.to_string()), anchor: a }
}

fn fview(id: Option<&str>, path: Option<&str>, line: Option<u32>) -> FeedbackDetailView {
    FeedbackDetailView {
        task_id: "t1".to_string(),
        feedback_id: id.map(|s| s.to_string()),
        file_path: path.map(|s| s.to_string()),
        line_number: line,
        side: None,
    }
}

fn tview(id: Option<&str>, path: Option<&str>, line: Option<u32>) -> ThreadDetailView {
    ThreadDetailView {
        task_id: "t1".to_string(),
        thread_id: id.map(|s| s.to_string()),
        file_path: path.map(|s| s.to_string()),
        line_number: line,
    }
}

#[test]
fn feedback_found_by_id_then_by_anchor() {
    let items = vec![
        feedback("f1", "t1", anchor("src/a.rs", 3, None)),
        feedback("f2", "t1", anchor("src/b.rs", 9, Some(FeedbackSide::Old))),
        feedback("f3", "t2", anchor("src/b.rs", 9, None)),
    ];
    assert_eq!(find_feedback(&items, &fview(Some("f2"), None, None)), Some(1));
    assert_eq!(find_feedback(&items, &fview(Some("missing"), Some("src/a.rs"), Some(3))), Some(0));
    assert_eq!(find_feedback(&items, &fview(None, Some("src/b.rs"), Some(9))), Some(1));
    assert_eq!(find_feedback(&items, &fview(None, Some("src/b.rs"), Some(10))), None);
    assert_eq!(find_feedback(&Vec::new(), &fview(Some("f1"), None, None)), None);
}

#[test]
fn thread_found_by_id_then_by_anchor() {
    let items = vec![
        thread("h1", None, anchor("x.rs", 1, None)),
        thread("h2", Some("t1"), None),
        thread("h3", Some("t1"), anchor("x.rs", 1, None)),
    ];
    assert_eq!(find_thread(&items, &tview(Some("h1"), None, None)), Some(0));
    // A thread without an anchor matches a pane without a file and a line.
    assert_eq!(find_thread(&items, &tview(None, None, None)), Some(1));
    assert_eq!(find_thread(&items, &tview(None, Some("x.rs"), Some(1))), Some(2));
}

#[test]
fn reply_side_prefers_the_pane() {
    let f = feedback("f1", "t1", anchor("a.rs", 1, Some(FeedbackSide::Old)));
    let mut v = fview(None, None, None);
    assert_eq!(composer_side(&v, Some(&f)), Some(FeedbackSide::Old));
    assert_eq!(composer_side(&v, None), None);
    v.side = Some(FeedbackSide::New);
    assert_eq!(composer_side(&v, Some(&f)), Some(FeedbackSide::New));
}

#[test]
fn blank_replies_are_not_sent() {
    assert!(feedback_reply_action("t1", None, None, None, None, "title", "  \n\t").is_none());
    assert!(thread_reply_actions(&tview(None, None, None), None, "", "   ").is_empty());
}

#[test]
fn feedback_reply_carries_trimmed_body_and_title() {
    let r = feedback_reply_action(
        "t1",
        Some("f1".to_string()),
        Some("src/a.rs".to_string()),
        Some(4),
        Some(FeedbackSide::New),
        "  Title  ",
        "  looks good \n",
    );
    match r {
        Some(ReviewAction::CreateFeedbackComment { task_id, feedback_id, file_path, line_number, side, title, body }) => {
            assert_eq!(task_id, "t1");
            assert_eq!(feedback_id.as_deref(), Some("f1"));
            assert_eq!(file_path.as_deref(), Some("src/a.rs"));
            assert_eq!(line_number, Some(4));
            assert_eq!(side, Some(FeedbackSide::New));
            assert_eq!(title.as_deref(), Some("  Title  "));
            assert_eq!(body, "looks good");
        }
        _ => panic!("expected a feedback comment"),
    }
    match feedback_reply_action("t1", None, None, None, None, "   ", "ok") {
        Some(ReviewAction::CreateFeedbackComment { title, .. }) => assert_eq!(title, None),
        _ => panic!("expected a feedback comment"),
    }
}

#[test]
fn thread_reply_uses_the_pane_anchor() {
    let v = tview(None, Some("src/lib.rs"), Some(12));
    let actions = thread_reply_actions(&v, Some("h1".to_string()), "", " hi ");
    assert_eq!(actions.len(), 2);
    assert!(matches!(actions[1], ReviewAction::ClearThreadReplyDraft));
    match &actions[0] {
        ReviewAction::CreateThreadComment { task_id, thread_id, file_path, line_number, title, body } => {
            assert_eq!(task_id, "t1");
            assert_eq!(thread_id.as_deref(), Some("h1"));
            assert_eq!(file_path.as_deref(), Some("src/lib.rs"));
            assert_eq!(*line_number, Some(12));
            assert_eq!(*title, None);
            assert_eq!(body, "hi");
        }
        _ => panic!("expected a thread comment"),
    }
}

#[test]
fn location_shows_base_name_and_line() {
    let p = |s: &str| Some(s.to_string());
    assert_eq!(anchor_location_label(&p("src/ui/app.rs"), Some(42)).as_deref(), Some("app.rs:42"));
    assert_eq!(anchor_location_label(&p("src/main.rs"), Some(10)).as_deref(), Some("main.rs:10"));
    assert_eq!(anchor_location_label(&p("main.rs"), Some(7)).as_deref(), Some("main.rs:7"));
    assert_eq!(anchor_location_label(&p("main.rs"), Some(0)), None);
    assert_eq!(anchor_location_label(&None, Some(3)), None);
    assert_eq!(anchor_location_label(&p("a.rs"), None), None);
}

#[test]
fn titles_are_renamed_only_when_changed() {
    match feedback_title_commit(Some("f1".to_string()), "Old", "New") {
        Some(ReviewAction::UpdateFeedbackTitle { feedback_id, title }) => {
            assert_eq!(feedback_id, "f1");
            assert_eq!(title, "New");
        }
        _ => panic!("expected a rename"),
    }
    assert!(feedback_title_commit(Some("f1".to_string()), "Same", "Same").is_none());
    assert!(feedback_title_commit(None, "Old", "New").is_none());
    match thread_title_commit(Some("h1".to_string()), "", "Topic") {
        Some(ReviewAction::UpdateThreadTitle { thread_id, title }) => {
            assert_eq!(thread_id, "h1");
            assert_eq!(title, "Topic");
        }
        _ => panic!("expected a rename"),
    }
    assert!(thread_title_commit(None, "a", "b").is_none());
}

#[test]
fn view_notes_opens_the_thread_at_the_line() {
    let items = vec![
        thread("h1", Some("t2"), anchor("x.rs", 5, None)),
        thread("h2", Some("t1"), anchor("x.rs", 5, None)),
    ];
    match view_notes_action(&items, "t1", "x.rs", 5) {
        ReviewAction::OpenThread { task_id, thread_id, file_path, line_number } => {
            assert_eq!(task_id, "t1");
            assert_eq!(thread_id.as_deref(), Some("h2"));
            assert_eq!(file_path.as_deref(), Some("x.rs"));
            assert_eq!(line_number, Some(5));
        }
        _ => panic!("expected the thread pane"),
    }
    match view_notes_action(&items, "t1", "x.rs", 6) {
        ReviewAction::OpenThread { thread_id, .. } => assert_eq!(thread_id, None),
        _ => panic!("expected the thread pane"),
    }
}
