use lareview::diff_snippet::{diff_snippet_for_anchor, snippet_readable};
use lareview::unidiff_safety::reads_safely;

#[test]
fn target_header_needs_an_earlier_source_or_hunk_header() {
    assert!(reads_safely(""));
    assert!(!reads_safely("+++ b/x\n--- a/x\n"));
    // A hunk header first makes the parser stop with an error, not a panic.
    assert!(reads_safely("@@ -1 +1 @@\n+++ b/x\n"));
    assert!(reads_safely("--- a/x\n+++ b/x\n@@ -1,2 +1,2 @@\n a\n b\n"));
    // A tab right after `+++ ` is no target header.
    assert!(reads_safely("+++ \tb/x\n"));
}

#[test]
fn hunk_ranges_outside_ascii_and_usize() {
    assert!(reads_safely("@@é\n"));
    assert!(reads_safely("--- a\n+++ b\n@@ -1 +1 @@ é\n a\n"));
    assert!(!reads_safely("--- a\n+++ b\n@@ -\u{0661} +1 @@\n"));
    assert!(!reads_safely("--- a\n+++ b\n@@ -18446744073709551615,1 +1 @@\n a\n"));
    // A non-ASCII character that is no digit keeps a line from being a header.
    assert!(reads_safely("--- a\n+++ b\n@@ -1,2 +1,2 @@\n a\n@@ -\u{e9} b\n"));
    // Numbers of a header the parser never reaches do not matter.
    assert!(reads_safely("@@ -1 +1 @@\n@@ -99999999999999999999999 +1 @@\n"));
    assert!(reads_safely("--- a\n+++ b\n+++ c\n@@ -99999999999999999999999 +1 @@\n"));
    assert!(!reads_safely("--- a\n+++ b\n@@ -99999999999999999999999 +1 @@\n"));
}

#[test]
fn ten_digit_ranges_are_read() {
    let diff = "--- a/x.rs\n+++ b/x.rs\n@@ -1234567890,1 +1234567890,1 @@\n a\n";
    if usize::BITS == 64 {
        assert!(reads_safely(diff));
        assert!(snippet_readable(diff));
        let snippet = diff_snippet_for_anchor(diff, "x.rs", 1234567890).unwrap();
        assert!(snippet.contains("@@ -1234567890,1 +1234567890,1 @@"));
    }
}

#[test]
fn blank_and_rejected_diffs_give_no_snippet() {
    assert!(snippet_readable("   \n"));
    assert_eq!(diff_snippet_for_anchor("   \n", "x.rs", 1), None);
    let rejected = "--- a/x\n+++ b/x\n+++ b/y\n";
    assert!(snippet_readable(rejected));
    assert_eq!(diff_snippet_for_anchor(rejected, "x", 1), None);
}
