//! The decisions of the generation screen: when a run may start, and what
//! starting a run does to the session.
use vstd::prelude::*;
use crate::diff_text::{clone_strings, join_with, strings_view};
use crate::domain::LinkedRepo;
use crate::search::{first_match, lemma_first_match_at, lemma_first_match_none};
use crate::text::{
    chars_of, decimal, has_prefix, push_chars, push_decimal, push_str, starts_with, str_eq, string_from_chars, trim,
    trimmed,
};

verus! {

/// An agent that tasks can be generated with.
pub struct AgentCandidate {
    pub id: String,
    pub label: String,
    pub command: Option<String>,
    pub args: Vec<String>,
    pub available: bool,
}

/// The generation screen's session.
pub struct GenerationSession {
    pub diff_text: String,
    pub is_generating: bool,
    pub generation_error: Option<String>,
    /// The local log lines of the agent timeline.
    pub timeline: Vec<String>,
}

/// The agent process to launch for a run.
pub struct GenerationLaunch {
    pub command: String,
    pub args: Vec<String>,
    pub diff_text: String,
    pub start_log: String,
}

pub open spec fn candidate_has_id(id: Seq<char>) -> spec_fn(AgentCandidate) -> bool {
    |c: AgentCandidate| c.id@ == id
}

/// The command of `c`, or the agent id where it names none.
pub open spec fn command_of(c: AgentCandidate, agent_id: Seq<char>) -> Seq<char> {
    match c.command {
        Some(cmd) => cmd@,
        None => agent_id,
    }
}

pub open spec fn not_configured_message(agent_id: Seq<char>) -> Seq<char> {
    "Agent \""@ + agent_id + "\" is not configured."@
}

pub open spec fn unavailable_message(c: AgentCandidate, agent_id: Seq<char>) -> Seq<char> {
    c.label@ + " is not available on PATH. Install it and restart (command: "@ + command_of(
        c,
        agent_id,
    ) + " "@ + join_with(strings_view(c.args@), " "@) + ")."@
}

pub open spec fn start_log_of(c: AgentCandidate, agent_id: Seq<char>) -> Seq<char> {
    "Invoking "@ + c.label@ + " via `"@ + join_with(
        seq![command_of(c, agent_id)] + strings_view(c.args@),
        " "@,
    ) + "`"@
}

/// What starting a run does to `old` (and the launch it asks for), given the
/// selected agent and the agents found: a blank diff only sets an error; an
/// agent that is not found, or not available, stops generating with an
/// error; otherwise generating starts with a fresh timeline holding the start
/// log, and the agent's command is launched on the diff.
pub open spec fn start_outcome(
    old: GenerationSession,
    new: GenerationSession,
    launch: Option<GenerationLaunch>,
    agent_id: Seq<char>,
    candidates: Seq<AgentCandidate>,
) -> bool {
    if trim(old.diff_text@).len() == 0 {
        &&& launch is None
        &&& new.diff_text == old.diff_text
        &&& new.is_generating == old.is_generating
        &&& new.generation_error matches Some(e) && e@ == "Please paste a git diff first"@
        &&& new.timeline == old.timeline
    } else {
        match first_match(candidates, candidate_has_id(agent_id)) {
            None => {
                &&& launch is None
                &&& new.diff_text == old.diff_text
                &&& !new.is_generating
                &&& new.generation_error matches Some(e) && e@ == not_configured_message(agent_id)
                &&& new.timeline == old.timeline
            },
            Some(ci) => {
                let c = candidates[ci];
                if !c.available {
                    &&& launch is None
                    &&& new.diff_text == old.diff_text
                    &&& !new.is_generating
                    &&& new.generation_error matches Some(e) && e@ == unavailable_message(
                        c,
                        agent_id,
                    )
                    &&& new.timeline == old.timeline
                } else {
                    &&& new.diff_text == old.diff_text
                    &&& new.is_generating
                    &&& new.generation_error is None
                    &&& strings_view(new.timeline@) == seq![start_log_of(c, agent_id)]
                    &&& launch matches Some(l) && l.command@ == command_of(c, agent_id)
                        && strings_view(l.args@) == strings_view(c.args@) && l.diff_text@
                        == old.diff_text@ && l.start_log@ == start_log_of(c, agent_id)
                }
            },
        }
    }
}

fn find_candidate(candidates: &Vec<AgentCandidate>, id: &str) -> (r: Option<usize>)
    ensures
        match r {
            Some(i) => i < candidates.len() && first_match(candidates@, candidate_has_id(id@))
                == Some(i as int),
            None => first_match(candidates@, candidate_has_id(id@)) is None,
        },
{
    let ghost p = candidate_has_id(id@);
    let mut i: usize = 0;
    while i < candidates.len()
        invariant
            i <= candidates.len(),
            p == candidate_has_id(id@),
            forall|j: int| 0 <= j < i ==> !p(#[trigger] candidates@[j]),
        decreases candidates.len() - i,
    {
        if str_eq(candidates[i].id.as_str(), id) {
            proof {
                lemma_first_match_at(candidates@, p, i as int);
            }
            return Some(i);
        }
        i = i + 1;
    }
    proof {
        lemma_first_match_none(candidates@, p);
    }
    None
}

/// Appends `parts` joined by single spaces; `lead` is written first when
/// given, as one more part.
fn push_joined(out: &mut Vec<char>, lead: Option<&Vec<char>>, parts: &Vec<String>)
    ensures
        final(out)@ == old(out)@ + join_with(
            match lead {
                Some(l) => seq![l@] + strings_view(parts@),
                None => strings_view(parts@),
            },
            " "@,
        ),
{
    let ghost all = match lead {
        Some(l) => seq![l@] + strings_view(parts@),
        None => strings_view(parts@),
    };
    let ghost start = out@;
    let ghost off: int = if lead is Some { 1 } else { 0 };
    let mut body: Vec<char> = Vec::new();
    let mut any = false;
    if let Some(l) = lead {
        push_chars(&mut body, l);
        any = true;
        assert(all.take(1) == seq![l@]);
    }
    assert(body@ == join_with(all.take(off), " "@));
    let mut i: usize = 0;
    while i < parts.len()
        invariant
            i <= parts.len(),
            any == (i + off > 0),
            off == 0 || off == 1,
            all.len() == parts.len() + off,
            forall|j: int| 0 <= j < parts.len() ==> all[j + off] == (#[trigger] parts@[j])@,
            body@ == join_with(all.take(i + off), " "@),
        decreases parts.len() - i,
    {
        let ghost prev = all.take(i + off);
        if any {
            push_str(&mut body, " ");
        }
        push_str(&mut body, parts[i].as_str());
        i = i + 1;
        any = true;
        proof {
            let now = all.take(i + off);
            assert(now.drop_last() == prev);
            assert(now.last() == parts@[i - 1]@);
            if i + off == 1 {
                assert(join_with(prev, " "@) == Seq::<char>::empty());
            }
        }
    }
    assert(all.take(i + off) == all);
    push_chars(out, &body);
}

/// Starts a generation run over the session's diff with agent `agent_id`,
/// found among `candidates`; returns the launch to perform, if any.
pub fn start_generation(
    session: &mut GenerationSession,
    agent_id: &str,
    candidates: &Vec<AgentCandidate>,
) -> (launch: Option<GenerationLaunch>)
    ensures
        start_outcome(*old(session), *final(session), launch, agent_id@, candidates@),
{
    let diff = trimmed(&chars_of(session.diff_text.as_str()));
    if diff.len() == 0 {
        session.generation_error = Some("Please paste a git diff first".to_owned());
        return None;
    }
    let ci = match find_candidate(candidates, agent_id) {
        Some(i) => i,
        None => {
            let mut msg: Vec<char> = Vec::new();
            push_str(&mut msg, "Agent \"");
            push_str(&mut msg, agent_id);
            push_str(&mut msg, "\" is not configured.");
            session.is_generating = false;
            session.generation_error = Some(string_from_chars(&msg));
            return None;
        },
    };
    let c = &candidates[ci];
    let command = match &c.command {
        Some(cmd) => chars_of(cmd.as_str()),
        None => chars_of(agent_id),
    };
    if !c.available {
        let mut msg: Vec<char> = Vec::new();
        push_str(&mut msg, c.label.as_str());
        push_str(&mut msg, " is not available on PATH. Install it and restart (command: ");
        push_chars(&mut msg, &command);
        push_str(&mut msg, " ");
        push_joined(&mut msg, None, &c.args);
        push_str(&mut msg, ").");
        session.is_generating = false;
        session.generation_error = Some(string_from_chars(&msg));
        return None;
    }
    let mut log: Vec<char> = Vec::new();
    push_str(&mut log, "Invoking ");
    push_str(&mut log, c.label.as_str());
    push_str(&mut log, " via `");
    push_joined(&mut log, Some(&command), &c.args);
    push_str(&mut log, "`");
    let start_log = string_from_chars(&log);
    session.is_generating = true;
    session.generation_error = None;
    session.timeline = Vec::new();
    session.timeline.push(string_from_chars(&log));
    proof {
        assert(strings_view(session.timeline@) =~= seq![start_log@]);
    }
    Some(GenerationLaunch {
        command: string_from_chars(&command),
        args: clone_strings(&c.args),
        diff_text: session.diff_text.clone(),
        start_log,
    })
}

/// Clears the session: no diff, no error, not generating, an empty timeline.
pub fn reset_session(session: &mut GenerationSession)
    ensures
        final(session).diff_text@ == Seq::<char>::empty(),
        final(session).generation_error is None,
        !final(session).is_generating,
        final(session).timeline@.len() == 0,
{
    session.diff_text = String::new();
    session.generation_error = None;
    session.is_generating = false;
    session.timeline = Vec::new();
}

/// The run button is enabled: there is a diff or a fetched preview, and
/// neither a run nor a preview fetch is under way.
pub fn run_enabled(
    diff_text: &str,
    has_preview: bool,
    is_generating: bool,
    is_preview_fetching: bool,
) -> (r: bool)
    ensures
        r == ((trim(diff_text@).len() > 0 || has_preview) && !is_generating
            && !is_preview_fetching),
{
    let has_content = trimmed(&chars_of(diff_text)).len() > 0 || has_preview;
    has_content && !is_generating && !is_preview_fetching
}

/// The input pane shows the diff viewer (rather than the text box): the
/// text is not blank and comes from a fetched pull request or looks like a
/// diff.
pub fn shows_diff_viewer(text: &str, is_from_github: bool) -> (r: bool)
    ensures
        r == (trim(text@).len() > 0 && (is_from_github || starts_with(trim(text@), "diff --git "@)
            || starts_with(trim(text@), "--- a/"@))),
{
    let t = trimmed(&chars_of(text));
    t.len() > 0 && (is_from_github || has_prefix(&t, &chars_of("diff --git ")) || has_prefix(
        &t,
        &chars_of("--- a/"),
    ))
}

/// The positions of the agents whose availability is `available`, in order.
pub open spec fn agents_with(agents: Seq<AgentCandidate>, available: bool, n: int) -> Seq<usize>
    decreases n,
{
    if n <= 0 {
        seq![]
    } else if agents[n - 1].available == available {
        agents_with(agents, available, n - 1).push((n - 1) as usize)
    } else {
        agents_with(agents, available, n - 1)
    }
}

/// The order in which the agents are listed: the available ones first, each
/// group in its own order (a stable sort on availability).
pub fn agents_available_first(agents: &Vec<AgentCandidate>) -> (r: Vec<usize>)
    ensures
        r@ == agents_with(agents@, true, agents.len() as int) + agents_with(
            agents@,
            false,
            agents.len() as int,
        ),
{
    let mut first: Vec<usize> = Vec::new();
    let mut rest: Vec<usize> = Vec::new();
    let mut i: usize = 0;
    while i < agents.len()
        invariant
            i <= agents.len(),
            first@ == agents_with(agents@, true, i as int),
            rest@ == agents_with(agents@, false, i as int),
        decreases agents.len() - i,
    {
        if agents[i].available {
            first.push(i);
        } else {
            rest.push(i);
        }
        i = i + 1;
    }
    let mut j: usize = 0;
    let ghost head = first@;
    while j < rest.len()
        invariant
            j <= rest.len(),
            first@ == head + rest@.take(j as int),
        decreases rest.len() - j,
    {
        first.push(rest[j]);
        j = j + 1;
        assert(rest@.take(j as int) == rest@.take(j - 1).push(rest@[j - 1]));
    }
    assert(rest@.take(rest.len() as int) == rest@);
    first
}

/// What a review handed over from the command line does with its repository.
#[derive(Debug, PartialEq, Eq)]
pub enum RepoChoice {
    /// The repository is linked already: it is selected as context.
    Select(String),
    /// It is not: it is linked, and then selected.
    Link,
}

/// The repository choice for a review handed over with repository root
/// `repo_root`: the first linked repository at that path, else a new link.
pub fn repo_for_pending_review(linked: &Vec<LinkedRepo>, repo_root: &str) -> (r: RepoChoice)
    ensures
        match first_match(linked@, repo_at(repo_root@)) {
            Some(i) => r matches RepoChoice::Select(id) && id@ == linked@[i].id@,
            None => r == RepoChoice::Link,
        },
{
    let ghost p = repo_at(repo_root@);
    let mut i: usize = 0;
    while i < linked.len()
        invariant
            i <= linked.len(),
            p == repo_at(repo_root@),
            forall|j: int| 0 <= j < i ==> !p(#[trigger] linked@[j]),
        decreases linked.len() - i,
    {
        if str_eq(linked[i].path.as_str(), repo_root) {
            proof {
                lemma_first_match_at(linked@, p, i as int);
            }
            return RepoChoice::Select(linked[i].id.clone());
        }
        i = i + 1;
    }
    proof {
        lemma_first_match_none(linked@, p);
    }
    RepoChoice::Link
}

pub open spec fn repo_at(path: Seq<char>) -> spec_fn(LinkedRepo) -> bool {
    |r: LinkedRepo| r.path@ == path
}

/// An entry of the agent's activity timeline.
#[derive(Clone, Copy, Debug, PartialEq, Eq, Structural)]
pub enum TimelineKind {
    /// A technical log line of the application itself.
    LocalLog,
    UserMessage,
    AgentMessage,
    AgentThought,
    ToolCall,
    ToolCallUpdate,
    Plan,
    /// The agent's list of available commands changed.
    AvailableCommands,
    /// The agent switched modes.
    CurrentMode,
    /// Any other update of the agent protocol.
    Other,
}

/// The timeline shows an entry: technical log lines, command-list updates
/// and mode switches are left out.
pub fn timeline_shows(kind: TimelineKind) -> (r: bool)
    ensures
        r == !(kind == TimelineKind::LocalLog || kind == TimelineKind::AvailableCommands || kind
            == TimelineKind::CurrentMode),
{
    match kind {
        TimelineKind::LocalLog | TimelineKind::AvailableCommands | TimelineKind::CurrentMode => false,
        _ => true,
    }
}

/// The heading of a plan in the timeline: `Review Plan (N steps)`.
pub fn plan_heading(steps: usize) -> (r: String)
    ensures
        r@ == "Review Plan ("@ + decimal(steps as nat) + " steps)"@,
{
    let mut out = chars_of("Review Plan (");
    push_decimal(&mut out, steps);
    push_str(&mut out, " steps)");
    string_from_chars(&out)
}


/// What a finished agent run produced.
pub struct RunResult {
    pub messages: Vec<String>,
    pub thoughts: Vec<String>,
    pub logs: Vec<String>,
}

/// The message a generation run sends back when it ends.
pub enum RunDone {
    /// The run's result, with the start log line put first among its logs.
    Finished(RunResult),
    /// `Generation failed: ` and the error.
    Failed(String),
}

/// The message that ends a run started with `start_log`, from the run's
/// outcome (its error as text).
pub fn run_done(start_log: &str, outcome: Result<RunResult, String>) -> (r: RunDone)
    ensures
        match outcome {
            Ok(res) => r matches RunDone::Finished(p) && strings_view(p.messages@) == strings_view(
                res.messages@,
            ) && strings_view(p.thoughts@) == strings_view(res.thoughts@) && strings_view(p.logs@)
                == seq![start_log@] + strings_view(res.logs@),
            Err(e) => r matches RunDone::Failed(m) && m@ == "Generation failed: "@ + e@,
        },
{
    match outcome {
        Ok(res) => {
            let mut logs = res.logs;
            let ghost before = logs@;
            logs.insert(0, string_from_chars(&chars_of(start_log)));
            proof {
                assert(strings_view(logs@) =~= seq![start_log@] + strings_view(before));
            }
            RunDone::Finished(RunResult { messages: res.messages, thoughts: res.thoughts, logs })
        },
        Err(e) => {
            let mut out = chars_of("Generation failed: ");
            push_str(&mut out, e.as_str());
            RunDone::Failed(string_from_chars(&out))
        },
    }
}

/// A review handed over from the command line, waiting for the generation
/// screen.
pub struct PendingReview {
    pub repo_root: Option<String>,
}

/// What the generation screen does with a review handed over to it.
#[derive(Debug, PartialEq, Eq)]
pub enum PendingStep {
    /// Nothing: no review was waiting, or it named no repository, or the
    /// screen is too narrow to be drawn.
    Nothing,
    /// Select the repository already linked under this id.
    SelectRepo(String),
    /// Link the repository at this root; then select it where that succeeds.
    LinkRepo(String),
}

/// Takes the waiting review, where the screen is drawn (`drawn`: at least
/// 100 points wide), and says what to do with its repository.
pub fn take_pending_review(
    pending: &mut Option<PendingReview>,
    linked: &Vec<LinkedRepo>,
    drawn: bool,
) -> (r: PendingStep)
    ensures
        !drawn ==> *final(pending) == *old(pending) && r == PendingStep::Nothing,
        drawn ==> *final(pending) is None,
        drawn ==> match *old(pending) {
            Some(p) => match p.repo_root {
                Some(root) => match first_match(linked@, repo_at(root@)) {
                    Some(i) => r matches PendingStep::SelectRepo(id) && id@ == linked@[i].id@,
                    None => r matches PendingStep::LinkRepo(x) && x@ == root@,
                },
                None => r == PendingStep::Nothing,
            },
            None => r == PendingStep::Nothing,
        },
{
    if !drawn {
        return PendingStep::Nothing;
    }
    match pending.take() {
        Some(p) => match p.repo_root {
            Some(root) => match repo_for_pending_review(linked, root.as_str()) {
                RepoChoice::Select(id) => PendingStep::SelectRepo(id),
                RepoChoice::Link => PendingStep::LinkRepo(root),
            },
            None => PendingStep::Nothing,
        },
        None => PendingStep::Nothing,
    }
}

/// The selected repository after a step: the linked repository's id (the
/// new link's id, where linking succeeded); unchanged otherwise.
pub fn selected_repo_after(selected: &mut Option<String>, step: &PendingStep, linked_id: Option<String>)
    ensures
        match *step {
            PendingStep::SelectRepo(id) => *final(selected) == Some(id),
            PendingStep::LinkRepo(_) => match linked_id {
                Some(id) => *final(selected) == Some(id),
                None => *final(selected) == *old(selected),
            },
            PendingStep::Nothing => *final(selected) == *old(selected),
        },
{
    match step {
        PendingStep::SelectRepo(id) => {
            *selected = Some(id.clone());
        },
        PendingStep::LinkRepo(_) => {
            if let Some(id) = linked_id {
                *selected = Some(id);
            }
        },
        PendingStep::Nothing => {},
    }
}


/// A launched run runs the selected agent's configured command (its id only
/// where it names no command), with its arguments, and the start log names
/// exactly that command and those arguments. The agent is the first of the
/// candidates with the selected id, and it is available.
pub proof fn lemma_launch_runs_configured_command(
    old: GenerationSession,
    new: GenerationSession,
    launch: Option<GenerationLaunch>,
    agent_id: Seq<char>,
    candidates: Seq<AgentCandidate>,
)
    requires
        start_outcome(old, new, launch, agent_id, candidates),
        launch is Some,
    ensures
        exists|i: int|
            {
                &&& 0 <= i < candidates.len()
                &&& candidates[i].id@ == agent_id
                &&& forall|j: int| 0 <= j < i ==> candidates[j].id@ != agent_id
                &&& candidates[i].available
                &&& launch.unwrap().command@ == match candidates[i].command {
                    Some(c) => c@,
                    None => agent_id,
                }
                &&& strings_view(launch.unwrap().args@) == strings_view(candidates[i].args@)
                &&& launch.unwrap().start_log@ == "Invoking "@ + candidates[i].label@ + " via `"@
                    + join_with(
                    seq![launch.unwrap().command@] + strings_view(launch.unwrap().args@),
                    " "@,
                ) + "`"@
            },
{
    let i = first_match(candidates, candidate_has_id(agent_id)).unwrap();
    assert(crate::search::is_first_match(candidates, candidate_has_id(agent_id), i));
    assert forall|j: int| 0 <= j < i implies candidates[j].id@ != agent_id by {
        assert(!candidate_has_id(agent_id)(candidates[j]));
    }
}


} // verus!
