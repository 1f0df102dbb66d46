//! How statuses and impacts are shown: label, icon and theme color.
use vstd::prelude::*;
use crate::domain::{ReviewStatus, RiskLevel, ThreadImpact};
use crate::text::{chars_of, decimal, push_decimal, push_str, string_from_chars};

verus! {

/// A color of the theme.
#[derive(Clone, Copy, Debug, PartialEq, Eq, Structural)]
pub enum ThemeColor {
    Brand,
    Accent,
    Success,
    TextMuted,
    Destructive,
    StatusDone,
    StatusInProgress,
    StatusTodo,
    Warning,
    TextDisabled,
    TextPrimary,
    TextSecondary,
}

/// An icon of the icon set.
#[derive(Clone, Copy, Debug, PartialEq, Eq, Structural)]
pub enum Icon {
    StatusTodo,
    StatusWip,
    StatusDone,
    StatusIgnored,
    StatusInProgress,
    ImpactBlocking,
    ImpactNiceToHave,
    ImpactNitpick,
    Check,
    RiskHigh,
    RiskMedium,
    RiskLow,
}

/// How a value is shown.
pub struct Visuals {
    pub label: &'static str,
    pub icon: Icon,
    pub color: ThemeColor,
}

/// An entry of a popup selector.
pub struct PopupOption<T> {
    pub label: &'static str,
    pub value: T,
    pub fg: ThemeColor,
    pub icon: Option<Icon>,
}

/// The label, icon and color of a status.
pub open spec fn status_look(status: ReviewStatus) -> (Seq<char>, Icon, ThemeColor) {
    match status {
        ReviewStatus::Todo => ("To Do"@, Icon::StatusTodo, ThemeColor::Brand),
        ReviewStatus::InProgress => ("In Progress"@, Icon::StatusWip, ThemeColor::Accent),
        ReviewStatus::Done => ("Done"@, Icon::StatusDone, ThemeColor::Success),
        ReviewStatus::Ignored => ("Ignored"@, Icon::StatusIgnored, ThemeColor::TextMuted),
    }
}

/// The label, icon and color of an impact.
pub open spec fn impact_look(impact: ThreadImpact) -> (Seq<char>, Icon, ThemeColor) {
    match impact {
        ThreadImpact::Blocking => ("Blocking"@, Icon::ImpactBlocking, ThemeColor::Destructive),
        ThreadImpact::NiceToHave => ("Nice to have"@, Icon::ImpactNiceToHave, ThemeColor::Brand),
        ThreadImpact::Nitpick => ("Nitpick"@, Icon::ImpactNitpick, ThemeColor::Accent),
    }
}

pub fn status_visuals(status: ReviewStatus) -> (r: Visuals)
    ensures
        (r.label@, r.icon, r.color) == status_look(status),
{
    match status {
        ReviewStatus::Todo => Visuals { label: "To Do", icon: Icon::StatusTodo, color: ThemeColor::Brand },
        ReviewStatus::InProgress => Visuals {
            label: "In Progress",
            icon: Icon::StatusWip,
            color: ThemeColor::Accent,
        },
        ReviewStatus::Done => Visuals { label: "Done", icon: Icon::StatusDone, color: ThemeColor::Success },
        ReviewStatus::Ignored => Visuals {
            label: "Ignored",
            icon: Icon::StatusIgnored,
            color: ThemeColor::TextMuted,
        },
    }
}

pub fn impact_visuals(impact: ThreadImpact) -> (r: Visuals)
    ensures
        (r.label@, r.icon, r.color) == impact_look(impact),
{
    match impact {
        ThreadImpact::Blocking => Visuals {
            label: "Blocking",
            icon: Icon::ImpactBlocking,
            color: ThemeColor::Destructive,
        },
        ThreadImpact::NiceToHave => Visuals {
            label: "Nice to have",
            icon: Icon::ImpactNiceToHave,
            color: ThemeColor::Brand,
        },
        ThreadImpact::Nitpick => Visuals {
            label: "Nitpick",
            icon: Icon::ImpactNitpick,
            color: ThemeColor::Accent,
        },
    }
}

/// The option that shows `status` as `status_visuals` does.
pub open spec fn shows_status(o: PopupOption<ReviewStatus>, status: ReviewStatus) -> bool {
    &&& o.value == status
    &&& o.label@ == status_look(status).0
    &&& o.icon == Some(status_look(status).1)
    &&& o.fg == status_look(status).2
}

/// The option that shows `impact` as `impact_visuals` does.
pub open spec fn shows_impact(o: PopupOption<ThreadImpact>, impact: ThreadImpact) -> bool {
    &&& o.value == impact
    &&& o.label@ == impact_look(impact).0
    &&& o.icon == Some(impact_look(impact).1)
    &&& o.fg == impact_look(impact).2
}

fn status_option(status: ReviewStatus) -> (r: PopupOption<ReviewStatus>)
    ensures
        shows_status(r, status),
{
    let v = status_visuals(status);
    PopupOption { label: v.label, value: status, fg: v.color, icon: Some(v.icon) }
}

fn impact_option(impact: ThreadImpact) -> (r: PopupOption<ThreadImpact>)
    ensures
        shows_impact(r, impact),
{
    let v = impact_visuals(impact);
    PopupOption { label: v.label, value: impact, fg: v.color, icon: Some(v.icon) }
}

/// The choices of a status selector: to do, in progress, done, ignored.
pub fn status_options() -> (r: [PopupOption<ReviewStatus>; 4])
    ensures
        shows_status(r[0], ReviewStatus::Todo),
        shows_status(r[1], ReviewStatus::InProgress),
        shows_status(r[2], ReviewStatus::Done),
        shows_status(r[3], ReviewStatus::Ignored),
{
    [
        status_option(ReviewStatus::Todo),
        status_option(ReviewStatus::InProgress),
        status_option(ReviewStatus::Done),
        status_option(ReviewStatus::Ignored),
    ]
}

/// The choices of an impact selector: blocking, nice to have, nitpick.
pub fn impact_options() -> (r: [PopupOption<ThreadImpact>; 3])
    ensures
        shows_impact(r[0], ThreadImpact::Blocking),
        shows_impact(r[1], ThreadImpact::NiceToHave),
        shows_impact(r[2], ThreadImpact::Nitpick),
{
    [
        impact_option(ThreadImpact::Blocking),
        impact_option(ThreadImpact::NiceToHave),
        impact_option(ThreadImpact::Nitpick),
    ]
}

/// Where a step of the agent's plan stands.
#[derive(Clone, Copy, Debug, PartialEq, Eq, Structural)]
pub enum PlanStatus {
    Pending,
    InProgress,
    Completed,
}

/// The icon, color and short label of a plan step's status.
pub fn plan_entry_style(status: PlanStatus) -> (r: (Icon, ThemeColor, &'static str))
    ensures
        (r.0, r.1, r.2@) == match status {
            PlanStatus::Completed => (Icon::StatusDone, ThemeColor::StatusDone, "done"@),
            PlanStatus::InProgress => (Icon::StatusInProgress, ThemeColor::StatusInProgress, "doing"@),
            PlanStatus::Pending => (Icon::StatusInProgress, ThemeColor::StatusTodo, "todo"@),
        },
{
    match status {
        PlanStatus::Completed => (Icon::StatusDone, ThemeColor::StatusDone, "done"),
        PlanStatus::InProgress => (Icon::StatusInProgress, ThemeColor::StatusInProgress, "doing"),
        PlanStatus::Pending => (Icon::StatusInProgress, ThemeColor::StatusTodo, "todo"),
    }
}

/// How many steps of a plan are completed.
pub open spec fn completed_steps(steps: Seq<PlanStatus>) -> nat
    decreases steps.len(),
{
    if steps.len() == 0 {
        0
    } else {
        completed_steps(steps.drop_last()) + if steps.last() == PlanStatus::Completed {
            1nat
        } else {
            0nat
        }
    }
}

proof fn lemma_completed_le(steps: Seq<PlanStatus>)
    ensures
        completed_steps(steps) <= steps.len(),
    decreases steps.len(),
{
    if steps.len() > 0 {
        lemma_completed_le(steps.drop_last());
    }
}

/// The `completed/total` counter of a plan.
pub fn plan_progress(steps: &Vec<PlanStatus>) -> (r: (usize, usize))
    ensures
        r.0 == completed_steps(steps@),
        r.1 == steps.len(),
{
    let mut done: usize = 0;
    let mut i: usize = 0;
    while i < steps.len()
        invariant
            i <= steps.len(),
            done == completed_steps(steps@.take(i as int)),
        decreases steps.len() - i,
    {
        proof {
            assert(steps@.take(i + 1).drop_last() == steps@.take(i as int));
            lemma_completed_le(steps@.take(i as int));
        }
        if steps[i] == PlanStatus::Completed {
            done = done + 1;
        }
        i = i + 1;
    }
    assert(steps@.take(steps.len() as int) == steps@);
    (done, steps.len())
}

/// How the task header shows a task's status.
pub open spec fn task_status_look(status: ReviewStatus) -> (Seq<char>, Icon, ThemeColor) {
    match status {
        ReviewStatus::Todo => ("To Do"@, Icon::StatusTodo, ThemeColor::TextMuted),
        ReviewStatus::InProgress => ("In Progress"@, Icon::StatusWip, ThemeColor::Accent),
        ReviewStatus::Done => ("Done"@, Icon::StatusDone, ThemeColor::Success),
        ReviewStatus::Ignored => ("Ignored"@, Icon::StatusIgnored, ThemeColor::Destructive),
    }
}

/// The status selector of the task header.
pub fn task_status_visuals(status: ReviewStatus) -> (r: Visuals)
    ensures
        (r.label@, r.icon, r.color) == task_status_look(status),
{
    match status {
        ReviewStatus::Todo => Visuals { label: "To Do", icon: Icon::StatusTodo, color: ThemeColor::TextMuted },
        ReviewStatus::InProgress => Visuals {
            label: "In Progress",
            icon: Icon::StatusWip,
            color: ThemeColor::Accent,
        },
        ReviewStatus::Done => Visuals { label: "Done", icon: Icon::StatusDone, color: ThemeColor::Success },
        ReviewStatus::Ignored => Visuals {
            label: "Ignored",
            icon: Icon::StatusIgnored,
            color: ThemeColor::Destructive,
        },
    }
}

/// The icon and color of a risk level.
pub open spec fn risk_look(risk: RiskLevel) -> (Icon, ThemeColor) {
    match risk {
        RiskLevel::High => (Icon::RiskHigh, ThemeColor::Destructive),
        RiskLevel::Medium => (Icon::RiskMedium, ThemeColor::Warning),
        RiskLevel::Low => (Icon::RiskLow, ThemeColor::Accent),
    }
}

/// The risk badge of the task header: `High risk`, `Med risk` or `Low risk`.
pub fn risk_badge(risk: RiskLevel) -> (r: Visuals)
    ensures
        (r.icon, r.color) == risk_look(risk),
        r.label@ == match risk {
            RiskLevel::High => "High risk"@,
            RiskLevel::Medium => "Med risk"@,
            RiskLevel::Low => "Low risk"@,
        },
{
    match risk {
        RiskLevel::High => Visuals { label: "High risk", icon: Icon::RiskHigh, color: ThemeColor::Destructive },
        RiskLevel::Medium => Visuals { label: "Med risk", icon: Icon::RiskMedium, color: ThemeColor::Warning },
        RiskLevel::Low => Visuals { label: "Low risk", icon: Icon::RiskLow, color: ThemeColor::Accent },
    }
}

/// The risk line of a task in the navigation tree: `High Risk`,
/// `Medium Risk` or `Low Risk`.
pub fn risk_nav_visuals(risk: RiskLevel) -> (r: Visuals)
    ensures
        (r.icon, r.color) == risk_look(risk),
        r.label@ == match risk {
            RiskLevel::High => "High Risk"@,
            RiskLevel::Medium => "Medium Risk"@,
            RiskLevel::Low => "Low Risk"@,
        },
{
    match risk {
        RiskLevel::High => Visuals { label: "High Risk", icon: Icon::RiskHigh, color: ThemeColor::Destructive },
        RiskLevel::Medium => Visuals {
            label: "Medium Risk",
            icon: Icon::RiskMedium,
            color: ThemeColor::Warning,
        },
        RiskLevel::Low => Visuals { label: "Low Risk", icon: Icon::RiskLow, color: ThemeColor::Accent },
    }
}

/// How the feedback and thread lists show an impact.
pub open spec fn list_impact_look(impact: ThreadImpact) -> (Seq<char>, Icon, ThemeColor) {
    match impact {
        ThreadImpact::Blocking => ("Blocking"@, Icon::ImpactBlocking, ThemeColor::Destructive),
        ThreadImpact::NiceToHave => ("Nice-to-have"@, Icon::ImpactNiceToHave, ThemeColor::Warning),
        ThreadImpact::Nitpick => ("Nitpick"@, Icon::ImpactNitpick, ThemeColor::TextMuted),
    }
}

/// The impact line of an entry of the feedback or thread list (whose status
/// icon and color are those of `task_status_visuals`).
pub fn list_impact_visuals(impact: ThreadImpact) -> (r: Visuals)
    ensures
        (r.label@, r.icon, r.color) == list_impact_look(impact),
{
    match impact {
        ThreadImpact::Blocking => Visuals {
            label: "Blocking",
            icon: Icon::ImpactBlocking,
            color: ThemeColor::Destructive,
        },
        ThreadImpact::NiceToHave => Visuals {
            label: "Nice-to-have",
            icon: Icon::ImpactNiceToHave,
            color: ThemeColor::Warning,
        },
        ThreadImpact::Nitpick => Visuals {
            label: "Nitpick",
            icon: Icon::ImpactNitpick,
            color: ThemeColor::TextMuted,
        },
    }
}

/// The counter of the plan panel, `completed/total`; the panel is not shown
/// for a plan without steps.
pub fn plan_panel_counter(steps: &Vec<PlanStatus>) -> (r: Option<String>)
    ensures
        steps.len() == 0 ==> r is None,
        steps.len() > 0 ==> (r matches Some(s) && s@ == decimal(completed_steps(steps@)) + "/"@
            + decimal(steps.len() as nat)),
{
    if steps.len() == 0 {
        return None;
    }
    let (done, total) = plan_progress(steps);
    let mut out: Vec<char> = Vec::new();
    push_decimal(&mut out, done);
    push_str(&mut out, "/");
    push_decimal(&mut out, total);
    Some(string_from_chars(&out))
}

/// The header of a plan in the activity timeline: `Plan updated` for a plan
/// without steps, else `Plan (completed/total)`.
pub fn plan_timeline_header(steps: &Vec<PlanStatus>) -> (r: String)
    ensures
        steps.len() == 0 ==> r@ == "Plan updated"@,
        steps.len() > 0 ==> r@ == "Plan ("@ + decimal(completed_steps(steps@)) + "/"@ + decimal(
            steps.len() as nat,
        ) + ")"@,
{
    if steps.len() == 0 {
        return string_from_chars(&chars_of("Plan updated"));
    }
    let (done, total) = plan_progress(steps);
    let mut out = chars_of("Plan (");
    push_decimal(&mut out, done);
    push_str(&mut out, "/");
    push_decimal(&mut out, total);
    push_str(&mut out, ")");
    string_from_chars(&out)
}

} // verus!
