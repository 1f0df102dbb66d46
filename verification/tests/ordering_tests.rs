use lareview::domain::{ReviewStatus, ReviewTask, RiskLevel, TaskStats};
use lareview::ordering::{
    risk_rank, sub_flows_in_display_order, tasks_in_display_order, tasks_in_sub_flow_display_order,
};

fn task(id: &str, title: &str, status: ReviewStatus, risk: RiskLevel, sub_flow: Option<&str>) -> ReviewTask {
    ReviewTask {
        id: id.to_string(),
        run_id: "run1".to_string(),
        title: title.to_string(),
        status,
        stats: TaskStats { risk },
        sub_flow: sub_flow.map(|s| s.to_string()),
    }
}

#[test]
fn test_full_review_ordering_workflow() {
    // Test that the ordering functions work together as expected
    let task1 = task("task1", "High Risk Task", ReviewStatus::Todo, RiskLevel::High, Some("Backend"));
    let task2 = task("task2", "Low Risk Task", ReviewStatus::Done, RiskLevel::Low, Some("Frontend"));
    let tasks_by_sub_flow = vec![
        (Some("Backend".to_string()), vec![task1]),
        (Some("Frontend".to_string()), vec![task2]),
    ];

    // Test the full ordering workflow
    let ordered_tasks = tasks_in_display_order(&tasks_by_sub_flow);

    // Should have both tasks
    assert_eq!(ordered_tasks.len(), 2);

    // First task should be high risk (from open tasks)
    assert_eq!(ordered_tasks[0].id, "task1");

    // Second task should be the closed one
    assert_eq!(ordered_tasks[1].id, "task2");
}

#[test]
fn test_sub_flow_ordering() {
    let task_a = task("task_a", "", ReviewStatus::Todo, RiskLevel::Low, Some("A"));
    let task_b = task("task_b", "", ReviewStatus::Todo, RiskLevel::Low, Some("B"));
    let task_z = task("task_z", "", ReviewStatus::Todo, RiskLevel::Low, Some("Z"));
    // No sub-flow task
    let task_none = task("task_none", "", ReviewStatus::Todo, RiskLevel::Low, None);

    let tasks_by_sub_flow = vec![
        (Some("B".to_string()), vec![task_b]),
        (Some("A".to_string()), vec![task_a]),
        (Some("Z".to_string()), vec![task_z]),
        (None, vec![task_none]),
    ];

    let ordered = sub_flows_in_display_order(&tasks_by_sub_flow);

    // Should be ordered: A, B, Z, None (which maps to "ZZZ")
    assert_eq!(ordered[0].0.as_deref(), Some("A"));
    assert_eq!(ordered[1].0.as_deref(), Some("B"));
    assert_eq!(ordered[2].0.as_deref(), Some("Z"));
    assert_eq!(ordered[3].0.as_deref(), None);
}

#[test]
fn risk_rank_orders_high_medium_low() {
    assert_eq!(risk_rank(RiskLevel::High), 2);
    assert_eq!(risk_rank(RiskLevel::Medium), 1);
    assert_eq!(risk_rank(RiskLevel::Low), 0);
}

#[test]
fn sub_flow_tasks_open_first_then_risk_then_title() {
    let tasks = vec![
        task("closed_high", "a", ReviewStatus::Done, RiskLevel::High, None),
        task("open_low_b", "b", ReviewStatus::Todo, RiskLevel::Low, None),
        task("ignored", "a", ReviewStatus::Ignored, RiskLevel::Low, None),
        task("open_med", "z", ReviewStatus::InProgress, RiskLevel::Medium, None),
        task("open_low_a", "a", ReviewStatus::Todo, RiskLevel::Low, None),
        task("open_high", "q", ReviewStatus::Todo, RiskLevel::High, None),
    ];
    let ids: Vec<&str> = tasks_in_sub_flow_display_order(&tasks).iter().map(|t| t.id.as_str()).collect();
    assert_eq!(ids, vec!["open_high", "open_med", "open_low_a", "open_low_b", "closed_high", "ignored"]);
}

#[test]
fn equal_keys_keep_their_order() {
    let tasks = vec![
        task("first", "same", ReviewStatus::Todo, RiskLevel::Medium, None),
        task("second", "same", ReviewStatus::InProgress, RiskLevel::Medium, None),
        task("third", "same", ReviewStatus::Todo, RiskLevel::Medium, None),
    ];
    let ids: Vec<&str> = tasks_in_sub_flow_display_order(&tasks).iter().map(|t| t.id.as_str()).collect();
    assert_eq!(ids, vec!["first", "second", "third"]);
}

#[test]
fn titles_compare_by_characters() {
    let tasks = vec![
        task("lower", "b", ReviewStatus::Todo, RiskLevel::Low, None),
        task("upper", "B", ReviewStatus::Todo, RiskLevel::Low, None),
        task("prefix", "", ReviewStatus::Todo, RiskLevel::Low, None),
        task("accent", "é", ReviewStatus::Todo, RiskLevel::Low, None),
    ];
    let ids: Vec<&str> = tasks_in_sub_flow_display_order(&tasks).iter().map(|t| t.id.as_str()).collect();
    assert_eq!(ids, vec!["prefix", "upper", "lower", "accent"]);
}

#[test]
fn display_order_concatenates_sub_flows() {
    let groups = vec![
        (None, vec![task("n1", "x", ReviewStatus::Todo, RiskLevel::Low, None)]),
        (
            Some("api".to_string()),
            vec![
                task("a_done", "a", ReviewStatus::Done, RiskLevel::High, Some("api")),
                task("a_open", "b", ReviewStatus::Todo, RiskLevel::Low, Some("api")),
            ],
        ),
        (Some("ZZZ".to_string()), vec![task("zzz", "y", ReviewStatus::Todo, RiskLevel::Low, Some("ZZZ"))]),
    ];
    let ids: Vec<&str> = tasks_in_display_order(&groups).iter().map(|t| t.id.as_str()).collect();
    // "api" < "ZZZ" is false: uppercase letters sort before lowercase ones.
    assert_eq!(ids, vec!["n1", "zzz", "a_open", "a_done"]);
    assert!(tasks_in_display_order(&Vec::new()).is_empty());
}
