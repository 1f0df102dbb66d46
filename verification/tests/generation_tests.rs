use lareview::generation::{
    agents_available_first, reset_session, run_enabled, shows_diff_viewer, start_generation, AgentCandidate,
    GenerationSession,
};

fn session(diff: &str) -> GenerationSession {
    GenerationSession {
        diff_text: diff.to_string(),
        is_generating: false,
        generation_error: None,
        timeline: vec!["old line".to_string()],
    }
}

fn agents() -> Vec<AgentCandidate> {
    vec![
        AgentCandidate {
            id: "codex".to_string(),
            label: "Codex".to_string(),
            command: None,
            args: vec!["acp".to_string(), "--fast".to_string()],
            available: true,
        },
        AgentCandidate {
            id: "gemini".to_string(),
            label: "Gemini".to_string(),
            command: Some("gemini-cli".to_string()),
            args: vec!["--experimental-acp".to_string()],
            available: false,
        },
    ]
}

#[test]
fn blank_diff_only_sets_an_error() {
    let mut s = session(" \n ");
    s.is_generating = true;
    assert!(start_generation(&mut s, "codex", &agents()).is_none());
    assert_eq!(s.generation_error.as_deref(), Some("Please paste a git diff first"));
    assert!(s.is_generating);
    assert_eq!(s.timeline, vec!["old line".to_string()]);
}

#[test]
fn unknown_agent_is_refused() {
    let mut s = session("diff");
    s.is_generating = true;
    assert!(start_generation(&mut s, "mystery", &agents()).is_none());
    assert_eq!(s.generation_error.as_deref(), Some("Agent \"mystery\" is not configured."));
    assert!(!s.is_generating);
}

#[test]
fn unavailable_agent_is_refused() {
    let mut s = session("diff");
    assert!(start_generation(&mut s, "gemini", &agents()).is_none());
    assert_eq!(
        s.generation_error.as_deref(),
        Some("Gemini is not available on PATH. Install it and restart (command: gemini-cli --experimental-acp).")
    );
}

#[test]
fn available_agent_is_launched() {
    let mut s = session("diff --git a/x b/x");
    s.generation_error = Some("stale".to_string());
    let launch = start_generation(&mut s, "codex", &agents()).unwrap();
    assert_eq!(launch.command, "codex");
    assert_eq!(launch.args, vec!["acp".to_string(), "--fast".to_string()]);
    assert_eq!(launch.diff_text, "diff --git a/x b/x");
    assert_eq!(launch.start_log, "Invoking Codex via `codex acp --fast`");
    assert!(s.is_generating);
    assert!(s.generation_error.is_none());
    assert_eq!(s.timeline, vec!["Invoking Codex via `codex acp --fast`".to_string()]);
}

#[test]
fn reset_clears_the_session() {
    let mut s = session("diff");
    s.is_generating = true;
    s.generation_error = Some("e".to_string());
    reset_session(&mut s);
    assert_eq!(s.diff_text, "");
    assert!(!s.is_generating);
    assert!(s.generation_error.is_none());
    assert!(s.timeline.is_empty());
}

#[test]
fn run_button_and_viewer_decisions() {
    assert!(run_enabled("x", false, false, false));
    assert!(!run_enabled("  ", false, false, false));
    assert!(run_enabled("  ", true, false, false));
    assert!(!run_enabled("x", false, true, false));
    assert!(!run_enabled("x", false, false, true));

    assert!(shows_diff_viewer("  diff --git a/x b/x", false));
    assert!(shows_diff_viewer("--- a/x", false));
    assert!(!shows_diff_viewer("hello", false));
    assert!(shows_diff_viewer("hello", true));
    assert!(!shows_diff_viewer("   ", true));
}

#[test]
fn available_agents_are_listed_first() {
    let mut list = agents();
    list.reverse();
    list.push(AgentCandidate {
        id: "other".to_string(),
        label: "Other".to_string(),
        command: None,
        args: Vec::new(),
        available: false,
    });
    // unavailable, available, unavailable
    assert_eq!(agents_available_first(&list), vec![1, 0, 2]);
    assert_eq!(agents_available_first(&agents()), vec![0, 1]);
    assert_eq!(agents_available_first(&Vec::new()), Vec::<usize>::new());
}
