use lareview::domain::{Review, ReviewRun};
use lareview::review_header::{
    export_review_title, review_menu_order, review_selector_label, run_option_label,
    run_selector_label, runs_of_review,
};

fn review(id: &str, title: &str, created: &str) -> Review {
    Review { id: id.to_string(), title: title.to_string(), created_at: created.to_string() }
}

fn run(id: &str, review_id: &str, agent: &str) -> ReviewRun {
    ReviewRun {
        id: id.to_string(),
        review_id: review_id.to_string(),
        agent_id: agent.to_string(),
        diff_text: String::new(),
    }
}

#[test]
fn review_labels_fall_back() {
    let reviews = vec![review("rev1", "Selected Review", "now")];
    assert_eq!(review_selector_label(&reviews, &None), "Select review…");
    assert_eq!(review_selector_label(&reviews, &Some("rev1".to_string())), "Selected Review");
    assert_eq!(review_selector_label(&reviews, &Some("rev9".to_string())), "Select review…");
    assert_eq!(export_review_title(&reviews, &Some("rev1".to_string())), "Selected Review");
    assert_eq!(export_review_title(&reviews, &None), "Review");
}

#[test]
fn menu_lists_selected_then_newest() {
    let reviews = vec![
        review("rev1", "Review 1", "2024-01-01T00:00:00Z"),
        review("rev2", "Review 2", "2024-01-02T00:00:00Z"),
        review("rev3", "Review 3", "2024-01-03T00:00:00Z"),
        review("rev4", "Review 4", "2024-01-02T00:00:00Z"),
    ];
    assert_eq!(review_menu_order(&reviews, &Some("rev1".to_string())), vec![0, 2, 1, 3]);
    assert_eq!(review_menu_order(&reviews, &None), vec![2, 1, 3, 0]);
    assert_eq!(review_menu_order(&Vec::new(), &None), Vec::<usize>::new());
}

#[test]
fn run_selector_labels() {
    let runs = vec![
        run("abcdefghij", "rev1", "agent-a"),
        run("xyz", "rev2", "agent-b"),
    ];
    assert_eq!(run_selector_label(&runs, "rev1", &Some("abcdefghij".to_string())), "Run abcdef…");
    assert_eq!(run_selector_label(&runs, "rev1", &Some("xyz".to_string())), "Select run…");
    assert_eq!(run_selector_label(&runs, "rev2", &Some("xyz".to_string())), "Run xyz…");
    assert_eq!(run_selector_label(&runs, "rev1", &None), "Select run…");
    assert_eq!(run_option_label(&runs[0]), "abcdefgh… (agent-a)");
    assert_eq!(run_option_label(&runs[1]), "xyz… (agent-b)");
}

#[test]
fn runs_of_the_selected_review() {
    let runs = vec![run("r1", "rev1", "a"), run("r2", "rev2", "a"), run("r3", "rev1", "b")];
    assert_eq!(runs_of_review(&runs, "rev1"), vec![0, 2]);
    assert_eq!(runs_of_review(&runs, "rev3"), Vec::<usize>::new());
}
