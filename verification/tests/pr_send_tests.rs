use lareview::domain::{FeedbackAnchor, FeedbackSide};
use lareview::pr_send::{confirm_location, send_list_location};

fn anchor(path: Option<&str>, line: Option<u32>, side: Option<FeedbackSide>) -> Option<FeedbackAnchor> {
    Some(FeedbackAnchor { file_path: path.map(|p| p.to_string()), line_number: line, side })
}

#[test]
fn confirmation_location_with_placeholders() {
    assert_eq!(confirm_location(&anchor(Some("src/lib.rs"), Some(42), None)), "src/lib.rs:42");
    assert_eq!(confirm_location(&anchor(None, Some(7), None)), "<no file>:7");
    assert_eq!(confirm_location(&anchor(Some("a.rs"), None, None)), "a.rs:?");
    assert_eq!(confirm_location(&None), "<no file>:?");
}

#[test]
fn send_list_location_forms() {
    assert_eq!(send_list_location(&None), None);
    assert_eq!(
        send_list_location(&anchor(Some("src/main.rs"), Some(120), Some(FeedbackSide::Old))),
        Some("src/main.rs:120 (Old)".to_string())
    );
    assert_eq!(
        send_list_location(&anchor(Some("src/main.rs"), Some(3), None)),
        Some("src/main.rs:3 (New)".to_string())
    );
    assert_eq!(
        send_list_location(&anchor(Some("src/main.rs"), None, Some(FeedbackSide::New))),
        Some("No location".to_string())
    );
}
