use lareview::diff_snippet::diff_snippet_for_anchor;

fn lock_and_app_diff() -> &'static str {
    r###"diff --git a/pnpm-lock.yaml b/pnpm-lock.yaml
--- a/pnpm-lock.yaml
+++ b/pnpm-lock.yaml
@@ -100,3 +100,3 @@
-lockfileVersion: 6
+lockfileVersion: 7
diff --git a/src/App.tsx b/src/App.tsx
--- a/src/App.tsx
+++ b/src/App.tsx
@@ -1,3 +1,6 @@
+import React from "react";
 const App = () => null;
"###
}

fn twelve_line_diff() -> &'static str {
    r###"diff --git a/src/foo.rs b/src/foo.rs
--- a/src/foo.rs
+++ b/src/foo.rs
@@ -1,12 +1,12 @@
 line1
 line2
 line3
 line4
 line5
 line6
 line7
 line8
 line9
 line10
 line11
 line12
"###
}

fn check_context_window() {
    let snippet =
        diff_snippet_for_anchor(twelve_line_diff(), "src/foo.rs", 10).expect("snippet should exist");
    assert!(snippet.contains("\n line6\n"));
    assert!(snippet.contains("\n line12\n"));
    assert!(!snippet.contains("\n line5\n"));

    let lines: Vec<&str> = snippet.lines().collect();
    let hunk_idx = lines
        .iter()
        .position(|line| line.starts_with("@@"))
        .expect("hunk header missing");
    let body = &lines[hunk_idx + 1..];
    assert_eq!(body.len(), 7);
}

#[test]
fn feedback_detail_diff_snippet_does_not_fall_through_to_other_files() {
    let snippet = diff_snippet_for_anchor(lock_and_app_diff(), "pnpm-lock.yaml", 3);
    assert!(snippet.is_none());
}

#[test]
fn thread_detail_diff_snippet_does_not_fall_through_to_other_files() {
    let snippet = diff_snippet_for_anchor(lock_and_app_diff(), "pnpm-lock.yaml", 3);
    assert!(snippet.is_none());
}

#[test]
fn feedback_detail_diff_snippet_limits_context_window() {
    check_context_window();
}

#[test]
fn thread_detail_diff_snippet_limits_context_window() {
    check_context_window();
}

#[test]
fn test_diff_snippet_path_matching() {
    let diff = "diff --git a/libs/ui/src/button.rs b/libs/ui/src/button.rs\n--- a/libs/ui/src/button.rs\n+++ b/libs/ui/src/button.rs\n@@ -1,1 +1,1 @@\n-old\n+new";

    // Exact match
    assert!(diff_snippet_for_anchor(diff, "libs/ui/src/button.rs", 1).is_some());
    // Suffix match
    assert!(diff_snippet_for_anchor(diff, "button.rs", 1).is_some());
    // Basename match
    assert!(diff_snippet_for_anchor(diff, "button", 1).is_none()); // Basename match only works for full component
}

#[test]
fn snippet_text_is_exact() {
    let snippet = diff_snippet_for_anchor(twelve_line_diff(), "b/src/foo.rs", 2).unwrap();
    let expected = "diff --git a/src/foo.rs b/src/foo.rs\n--- a/src/foo.rs\n+++ b/src/foo.rs\n@@ -1,6 +1,6 @@\n line1\n line2\n line3\n line4\n line5\n line6\n";
    assert_eq!(snippet, expected);
}

#[test]
fn snippet_counts_old_and_new_lines_separately() {
    let diff = "--- a/x.txt\n+++ b/x.txt\n@@ -7,2 +7,3 @@ fn main\n keep\n-gone\n+new1\n+new2\n";
    let snippet = diff_snippet_for_anchor(diff, "x.txt", 8).unwrap();
    let expected = "diff --git a/x.txt b/x.txt\n--- a/x.txt\n+++ b/x.txt\n@@ -7,2 +7,3 @@ fn main\n keep\n-gone\n+new1\n+new2\n";
    assert_eq!(snippet, expected);
}

#[test]
fn deleted_file_shows_old_path() {
    let diff = "--- a/old.txt\n+++ /dev/null\n@@ -1,1 +0,0 @@\n-bye\n";
    let snippet = diff_snippet_for_anchor(diff, "old.txt", 1).unwrap();
    assert!(snippet.starts_with("diff --git a/old.txt b/old.txt\n"));
    assert!(snippet.contains("@@ -1,1 +0,0 @@\n-bye\n"));
}

#[test]
fn blank_or_unmatched_diff_gives_none() {
    assert!(diff_snippet_for_anchor("  \n\t ", "a.rs", 1).is_none());
    assert!(diff_snippet_for_anchor(twelve_line_diff(), "src/bar.rs", 1).is_none());
    assert!(diff_snippet_for_anchor(twelve_line_diff(), "src/foo.rs", 40).is_none());
    // a hunk before any file header is rejected by the parser
    assert!(diff_snippet_for_anchor("@@ -1 +1 @@\n-a\n+b\n", "a", 1).is_none());
}
