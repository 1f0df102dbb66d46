//! Decisions of the settings screen: the status of each integration, and the
//! agent settings dialog.
use vstd::prelude::*;
use vstd::string::StringSliceAdditionalSpecFns;
use crate::domain::opt_str;
use crate::generation::AgentCandidate;
use crate::text::{chars_of, str_eq, string_from_chars};
use crate::visuals::{Icon, ThemeColor};

verus! {

/// How an environment variable's value is shown: values longer than ten
/// bytes (in UTF-8, as `str::len` counts them) are masked.
pub fn env_value_display<'a>(value: &'a str) -> (r: &'a str)
    ensures
        r@ == if value.spec_bytes().len() as usize > 10 {
            "*******"@
        } else {
            value@
        },
{
    if value.len() > 10 {
        "*******"
    } else {
        value
    }
}

/// A new environment variable can be added once both its name and its value
/// are filled in.
pub fn env_entry_addable(key: &str, value: &str) -> (r: bool)
    ensures
        r == (key@.len() > 0 && value@.len() > 0),
{
    !key.is_empty() && !value.is_empty()
}

/// A custom agent can be added once its id, its name and its command are
/// all filled in.
pub fn custom_agent_addable(id: &str, label: &str, command: &str) -> (r: bool)
    ensures
        r == (id@.len() > 0 && label@.len() > 0 && command@.len() > 0),
{
    !id.is_empty() && !label.is_empty() && !command.is_empty()
}

/// No name occurs twice among an agent's environment variables.
pub open spec fn env_names_unique(e: Seq<(String, String)>) -> bool {
    forall|i: int, j: int| 0 <= i < j < e.len() ==> e[i].0@ != e[j].0@
}

/// An agent's environment variables as a map from names to values.
pub open spec fn env_map(e: Seq<(String, String)>) -> Map<Seq<char>, Seq<char>>
    decreases e.len(),
{
    if e.len() == 0 {
        Map::empty()
    } else {
        env_map(e.drop_last()).insert(e.last().0@, e.last().1@)
    }
}

pub open spec fn env_has_name(e: Seq<(String, String)>, k: Seq<char>) -> bool {
    exists|i: int| 0 <= i < e.len() && e[i].0@ == k
}

proof fn lemma_env_map(e: Seq<(String, String)>)
    requires
        env_names_unique(e),
    ensures
        env_map(e).dom().finite(),
        env_map(e).dom().len() == e.len(),
        forall|k: Seq<char>| #[trigger] env_map(e).dom().contains(k) <==> env_has_name(e, k),
        forall|i: int| 0 <= i < e.len() ==> env_map(e)[#[trigger] e[i].0@] == e[i].1@,
    decreases e.len(),
{
    if e.len() > 0 {
        let d = e.drop_last();
        let n = e.len() - 1;
        assert forall|i: int, j: int| 0 <= i < j < d.len() implies d[i].0@ != d[j].0@ by {
            assert(d[i] == e[i] && d[j] == e[j]);
        }
        lemma_env_map(d);
        let k = e[n].0@;
        if env_map(d).dom().contains(k) {
            let i = choose|i: int| 0 <= i < d.len() && d[i].0@ == k;
            assert(d[i] == e[i]);
            assert(false);
        }
        assert forall|kk: Seq<char>| #[trigger] env_map(e).dom().contains(kk) <==> env_has_name(e, kk) by {
            if env_map(e).dom().contains(kk) && kk != k {
                assert(env_has_name(d, kk));
                let i = choose|i: int| 0 <= i < d.len() && d[i].0@ == kk;
                assert(d[i] == e[i]);
            }
            if kk == k {
                assert(e[n].0@ == kk);
            }
            if env_has_name(e, kk) {
                let i = choose|i: int| 0 <= i < e.len() && e[i].0@ == kk;
                if i < n {
                    assert(d[i] == e[i]);
                    assert(env_has_name(d, kk));
                }
            }
        }
        assert forall|i: int| 0 <= i < e.len() implies env_map(e)[#[trigger] e[i].0@] == e[i].1@ by {
            if i < n {
                assert(d[i] == e[i]);
                assert(e[i].0@ != k);
            }
        }
    }
}

/// The position of the variable named `name`, if there is one.
fn find_env_name(e: &Vec<(String, String)>, name: &str) -> (r: Option<usize>)
    ensures
        match r {
            Some(j) => j < e.len() && e@[j as int].0@ == name@,
            None => forall|y: int| 0 <= y < e.len() ==> e@[y].0@ != name@,
        },
{
    let mut j: usize = 0;
    while j < e.len()
        invariant
            j <= e.len(),
            forall|y: int| 0 <= y < j ==> e@[y].0@ != name@,
        decreases e.len() - j,
    {
        if str_eq(e[j].0.as_str(), name) {
            return Some(j);
        }
        j = j + 1;
    }
    None
}

/// The two lists of environment variables hold the same names with the same
/// values.
fn env_maps_equal(a: &Vec<(String, String)>, b: &Vec<(String, String)>) -> (r: bool)
    requires
        env_names_unique(a@),
        env_names_unique(b@),
    ensures
        r == (env_map(a@) == env_map(b@)),
{
    proof {
        lemma_env_map(a@);
        lemma_env_map(b@);
    }
    if a.len() != b.len() {
        return false;
    }
    let mut i: usize = 0;
    while i < a.len()
        invariant
            i <= a.len(),
            a.len() == b.len(),
            env_names_unique(a@),
            env_names_unique(b@),
            forall|k: Seq<char>| #[trigger] env_map(a@).dom().contains(k) <==> env_has_name(a@, k),
            forall|k: Seq<char>| #[trigger] env_map(b@).dom().contains(k) <==> env_has_name(b@, k),
            forall|x: int| 0 <= x < a.len() ==> env_map(a@)[#[trigger] a@[x].0@] == a@[x].1@,
            forall|x: int| 0 <= x < b.len() ==> env_map(b@)[#[trigger] b@[x].0@] == b@[x].1@,
            forall|x: int|
                0 <= x < i ==> #[trigger] env_map(b@).dom().contains(a@[x].0@) && env_map(
                    b@,
                )[a@[x].0@] == a@[x].1@,
        decreases a.len() - i,
    {
        let j = match find_env_name(b, a[i].0.as_str()) {
            Some(j) => j,
            None => {
                proof {
                    assert(env_map(a@).dom().contains(a@[i as int].0@));
                    assert(!env_has_name(b@, a@[i as int].0@));
                }
                return false;
            },
        };
        proof {
            assert(env_has_name(b@, a@[i as int].0@));
        }
        if !str_eq(b[j].1.as_str(), a[i].1.as_str()) {
            proof {
                assert(env_map(b@)[b@[j as int].0@] == b@[j as int].1@);
                assert(env_map(a@)[a@[i as int].0@] == a@[i as int].1@);
            }
            return false;
        }
        proof {
            assert(env_map(b@)[b@[j as int].0@] == b@[j as int].1@);
        }
        i = i + 1;
    }
    proof {
        let da = env_map(a@).dom();
        let db = env_map(b@).dom();
        assert forall|k: Seq<char>| da.contains(k) implies db.contains(k) by {
            let x = choose|x: int| 0 <= x < a.len() && a@[x].0@ == k;
            assert(db.contains(a@[x].0@));
        }
        vstd::set_lib::lemma_subset_equality(da, db);
        assert forall|k: Seq<char>| da.contains(k) implies env_map(a@)[k] == env_map(b@)[k] by {
            let x = choose|x: int| 0 <= x < a.len() && a@[x].0@ == k;
            assert(db.contains(a@[x].0@));
        }
        assert(env_map(a@) =~= env_map(b@));
    }
    true
}

/// What the agent settings dialog held when it was opened or last saved.
pub struct AgentSettingsSnapshot {
    pub agent_id: String,
    pub path_override: Option<String>,
    pub envs: Option<Vec<(String, String)>>,
}

pub open spec fn opt_env_map(o: Option<Vec<(String, String)>>) -> Option<Map<Seq<char>, Seq<char>>> {
    match o {
        Some(v) => Some(env_map(v@)),
        None => None,
    }
}

/// A path override as the dialog compares it: an empty one counts as none.
pub open spec fn effective_path(p: Option<String>) -> Option<Seq<char>> {
    match p {
        Some(s) => if s@.len() == 0 {
            None
        } else {
            Some(s@)
        },
        None => None,
    }
}

/// Environment variables as the dialog compares them: an empty set counts as
/// none.
pub open spec fn effective_envs(e: Option<Vec<(String, String)>>) -> Option<Map<Seq<char>, Seq<char>>> {
    match e {
        Some(v) => if v@.len() == 0 {
            None
        } else {
            Some(env_map(v@))
        },
        None => None,
    }
}

/// Every list of environment variables in `e` names each variable once.
pub open spec fn envs_wf(e: Option<Vec<(String, String)>>) -> bool {
    e matches Some(v) ==> env_names_unique(v@)
}

/// The settings of the agent being edited differ from the snapshot taken for
/// that agent.
pub open spec fn settings_dirty(
    snapshot: Option<AgentSettingsSnapshot>,
    agent_id: Seq<char>,
    path_override: Option<String>,
    envs: Option<Vec<(String, String)>>,
) -> bool {
    match snapshot {
        Some(s) => s.agent_id@ == agent_id && (opt_str(s.path_override) != effective_path(
            path_override,
        ) || opt_env_map(s.envs) != effective_envs(envs)),
        None => false,
    }
}

/// A snapshot taken of an agent's settings leaves its dialog clean: nothing
/// to save until the path or a variable changes. (A stored path or set of
/// variables that is empty is the exception: the dialog compares it as none
/// but the snapshot holds it as it is.)
pub proof fn lemma_fresh_snapshot_is_clean(
    agent_id: String,
    path_override: Option<String>,
    envs: Option<Vec<(String, String)>>,
)
    requires
        !(path_override matches Some(p) && p@.len() == 0),
        !(envs matches Some(v) && v@.len() == 0),
    ensures
        !settings_dirty(
            Some(AgentSettingsSnapshot { agent_id, path_override, envs }),
            agent_id@,
            path_override,
            envs,
        ),
{
}

/// Whether "Save Changes" is enabled in the settings dialog of `agent_id`,
/// given the path override and the environment variables now stored for it:
/// only when a snapshot of that agent was taken and either of them differs
/// from it (an empty path or an empty set of variables counting as none).
pub fn agent_settings_dirty(
    snapshot: &Option<AgentSettingsSnapshot>,
    agent_id: &str,
    path_override: &Option<String>,
    envs: &Option<Vec<(String, String)>>,
) -> (r: bool)
    requires
        snapshot matches Some(s) ==> envs_wf(s.envs),
        envs_wf(*envs),
    ensures
        r == settings_dirty(*snapshot, agent_id@, *path_override, *envs),
{
    match snapshot {
        None => false,
        Some(s) => {
            if !str_eq(s.agent_id.as_str(), agent_id) {
                return false;
            }
            let path_differs = match (&s.path_override, path_override) {
                (Some(a), Some(b)) => b.as_str().is_empty() || !str_eq(a.as_str(), b.as_str()),
                (Some(_), None) => true,
                (None, Some(b)) => !b.as_str().is_empty(),
                (None, None) => false,
            };
            let envs_differ = match (&s.envs, envs) {
                (Some(a), Some(b)) => b.len() == 0 || !env_maps_equal(a, b),
                (Some(_), None) => true,
                (None, Some(b)) => b.len() != 0,
                (None, None) => false,
            };
            path_differs || envs_differ
        },
    }
}

/// A status badge of the settings screen.
pub struct Badge {
    pub icon: Option<Icon>,
    pub label: &'static str,
    pub color: ThemeColor,
}

/// What the command-line tool section offers below its status.
#[derive(Clone, Copy, Debug, PartialEq, Eq, Structural)]
pub enum CliPanel {
    /// The tool is on the PATH: a pointer to its documentation.
    Ready,
    /// An installation is running.
    Configuring,
    /// The button that adds the tool to the PATH.
    AddToPath,
}

/// The badge of the command-line tool: an installation that is running comes
/// first, then whether the tool is on the PATH.
pub fn cli_badge(is_installing: bool, cli_available: bool) -> (r: Badge)
    ensures
        is_installing ==> r == (Badge {
            icon: None,
            label: "Installing...",
            color: ThemeColor::Warning,
        }),
        !is_installing && cli_available ==> r == (Badge {
            icon: Some(Icon::Check),
            label: "Available",
            color: ThemeColor::Success,
        }),
        !is_installing && !cli_available ==> r == (Badge {
            icon: Some(Icon::StatusIgnored),
            label: "Not on PATH",
            color: ThemeColor::Warning,
        }),
{
    if is_installing {
        Badge { icon: None, label: "Installing...", color: ThemeColor::Warning }
    } else if cli_available {
        Badge { icon: Some(Icon::Check), label: "Available", color: ThemeColor::Success }
    } else {
        Badge { icon: Some(Icon::StatusIgnored), label: "Not on PATH", color: ThemeColor::Warning }
    }
}

/// The line "Status:" of the command-line tool: installed or not.
pub fn cli_installed_label(cli_available: bool) -> (r: (&'static str, ThemeColor))
    ensures
        r == if cli_available {
            ("Installed", ThemeColor::Success)
        } else {
            ("Not installed", ThemeColor::Warning)
        },
{
    if cli_available {
        ("Installed", ThemeColor::Success)
    } else {
        ("Not installed", ThemeColor::Warning)
    }
}

/// What the command-line tool section offers: a tool on the PATH comes
/// first, then an installation that is running.
pub fn cli_panel(is_installing: bool, cli_available: bool) -> (r: CliPanel)
    ensures
        r == if cli_available {
            CliPanel::Ready
        } else if is_installing {
            CliPanel::Configuring
        } else {
            CliPanel::AddToPath
        },
{
    if cli_available {
        CliPanel::Ready
    } else if is_installing {
        CliPanel::Configuring
    } else {
        CliPanel::AddToPath
    }
}

/// The badge of the diagram engine: an installation that is running comes
/// first, then whether the engine was found.
pub fn d2_badge(is_installing: bool, d2_installed: bool) -> (r: Badge)
    ensures
        is_installing ==> r == (Badge {
            icon: None,
            label: "Installing...",
            color: ThemeColor::Warning,
        }),
        !is_installing && d2_installed ==> r == (Badge {
            icon: Some(Icon::Check),
            label: "Installed",
            color: ThemeColor::Success,
        }),
        !is_installing && !d2_installed ==> r == (Badge {
            icon: None,
            label: "Not Installed",
            color: ThemeColor::TextDisabled,
        }),
{
    if is_installing {
        Badge { icon: None, label: "Installing...", color: ThemeColor::Warning }
    } else if d2_installed {
        Badge { icon: Some(Icon::Check), label: "Installed", color: ThemeColor::Success }
    } else {
        Badge { icon: None, label: "Not Installed", color: ThemeColor::TextDisabled }
    }
}

/// The badge of the GitHub integration: a check that is running comes first;
/// it is ready when a status came back without an error.
pub fn github_badge(is_checking: bool, has_status: bool, has_error: bool) -> (r: Badge)
    ensures
        is_checking ==> r == (Badge { icon: None, label: "Checking...", color: ThemeColor::Warning }),
        !is_checking && has_status && !has_error ==> r == (Badge {
            icon: Some(Icon::Check),
            label: "Ready",
            color: ThemeColor::Success,
        }),
        !is_checking && !(has_status && !has_error) ==> r == (Badge {
            icon: Some(Icon::StatusIgnored),
            label: "Error/Unknown",
            color: ThemeColor::Destructive,
        }),
{
    if is_checking {
        Badge { icon: None, label: "Checking...", color: ThemeColor::Warning }
    } else if has_status && !has_error {
        Badge { icon: Some(Icon::Check), label: "Ready", color: ThemeColor::Success }
    } else {
        Badge { icon: Some(Icon::StatusIgnored), label: "Error/Unknown", color: ThemeColor::Destructive }
    }
}

/// What the card of an agent in the settings shows.
pub struct AgentCard {
    /// A custom agent (one added by the user) can be deleted.
    pub deletable: bool,
    pub status_icon: Icon,
    pub status_color: ThemeColor,
    /// The agent's command, or `Not found`.
    pub command: String,
}

/// The card of `candidate`, where `custom_agent_ids` are the ids of the
/// agents the user added.
pub fn agent_card(candidate: &AgentCandidate, custom_agent_ids: &Vec<String>) -> (r: AgentCard)
    ensures
        r.deletable == exists|i: int| 0 <= i < custom_agent_ids.len() && custom_agent_ids@[i]@ == candidate.id@,
        (r.status_icon, r.status_color) == if candidate.available {
            (Icon::StatusDone, ThemeColor::Success)
        } else {
            (Icon::StatusIgnored, ThemeColor::Destructive)
        },
        r.command@ == match candidate.command {
            Some(c) => c@,
            None => "Not found"@,
        },
{
    let mut deletable = false;
    let mut i: usize = 0;
    while i < custom_agent_ids.len()
        invariant
            i <= custom_agent_ids.len(),
            deletable == exists|j: int| 0 <= j < i && custom_agent_ids@[j]@ == candidate.id@,
        decreases custom_agent_ids.len() - i,
    {
        if str_eq(custom_agent_ids[i].as_str(), candidate.id.as_str()) {
            deletable = true;
        }
        i = i + 1;
    }
    let command = match &candidate.command {
        Some(c) => c.clone(),
        None => string_from_chars(&chars_of("Not found")),
    };
    if candidate.available {
        AgentCard { deletable, status_icon: Icon::StatusDone, status_color: ThemeColor::Success, command }
    } else {
        AgentCard {
            deletable,
            status_icon: Icon::StatusIgnored,
            status_color: ThemeColor::Destructive,
            command,
        }
    }
}

} // verus!
