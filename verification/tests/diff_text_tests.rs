use lareview::diff_text::{
    cached_unified_diff, combine_diffs_to_unified_diff, extract_file_path_from_diff, note_file_path,
};

#[test]
fn file_path_comes_from_first_git_header() {
    let diff = "index 1..2\ndiff --git a/src/x.rs b/src/x.rs\n--- a/src/x.rs\ndiff --git a/y b/y\n";
    assert_eq!(extract_file_path_from_diff(diff), Some("src/x.rs".to_string()));
    let diff = "diff --git a/src/lib.rs b/src/lib.rs\n--- a/src/lib.rs\n+++ b/src/lib.rs\n@@ -1 +1 @@\n-a\n+b";
    assert_eq!(extract_file_path_from_diff(diff), Some("src/lib.rs".to_string()));
}

#[test]
fn malformed_headers_are_skipped() {
    let diff = "diff --git x/a b/a\ndiff --git\ta/t b/t\r\ndiff --git   a/spaced   b/spaced\n";
    assert_eq!(extract_file_path_from_diff(diff), Some("spaced".to_string()));
    assert_eq!(extract_file_path_from_diff("diff --git a/only"), Some("only".to_string()));
    assert_eq!(extract_file_path_from_diff("diff --git"), None);
    assert_eq!(extract_file_path_from_diff(""), None);
    assert_eq!(extract_file_path_from_diff("--- a/x\n+++ b/x\n"), None);
}

#[test]
fn diffs_are_joined_with_newlines() {
    let diffs = vec!["a".to_string(), "b\n".to_string(), "".to_string(), "c".to_string()];
    assert_eq!(combine_diffs_to_unified_diff(&diffs), "a\nb\n\n\nc");
    assert_eq!(combine_diffs_to_unified_diff(&Vec::new()), "");
    assert_eq!(combine_diffs_to_unified_diff(&vec!["only".to_string()]), "only");
}

#[test]
fn unified_diff_cache_hits_and_misses() {
    let mut cache: Option<(Vec<String>, String)> = None;
    let d1 = vec!["diff --git a/x b/x".to_string(), "diff --git a/y b/y".to_string()];
    let first = cached_unified_diff(&mut cache, &d1);
    assert_eq!(first, "diff --git a/x b/x\ndiff --git a/y b/y");
    assert_eq!(cache, Some((d1.clone(), first.clone())));
    let again = cached_unified_diff(&mut cache, &d1);
    assert_eq!(again, first);
    let d2 = vec!["diff --git a/z b/z".to_string()];
    let other = cached_unified_diff(&mut cache, &d2);
    assert_eq!(other, "diff --git a/z b/z");
    assert_eq!(cache, Some((d2.clone(), other.clone())));
}

#[test]
fn note_file_path_falls_back_to_unknown() {
    let diffs = vec![
        "diff --git a/src/app.rs b/src/app.rs\n@@ -1 +1 @@\n-a\n+b".to_string(),
        "no header here".to_string(),
    ];
    assert_eq!(note_file_path(&diffs, 0), "src/app.rs");
    assert_eq!(note_file_path(&diffs, 1), "unknown");
    assert_eq!(note_file_path(&diffs, 2), "unknown");
}
