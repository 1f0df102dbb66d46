//! The order in which the review screen lists sub-flows and their tasks.
use vstd::prelude::*;
use crate::domain::{opt_str, ReviewTask, RiskLevel};
use crate::text::chars_of;

verus! {

/// `a <= b` in the order of `str`: lexicographic by characters (UTF-8 bytes
/// compare as their code points do).
pub open spec fn chars_le(a: Seq<char>, b: Seq<char>) -> bool
    decreases a.len(),
{
    if a.len() == 0 {
        true
    } else if b.len() == 0 {
        false
    } else if a[0] != b[0] {
        a[0] < b[0]
    } else {
        chars_le(a.drop_first(), b.drop_first())
    }
}

/// Any two strings compare one way or the other.
pub proof fn lemma_chars_le_total(a: Seq<char>, b: Seq<char>)
    ensures
        chars_le(a, b) || chars_le(b, a),
    decreases a.len(),
{
    if a.len() > 0 && b.len() > 0 && a[0] == b[0] {
        lemma_chars_le_total(a.drop_first(), b.drop_first());
    }
}

/// The string order is transitive.
pub proof fn lemma_chars_le_transitive(a: Seq<char>, b: Seq<char>, c: Seq<char>)
    requires
        chars_le(a, b),
        chars_le(b, c),
    ensures
        chars_le(a, c),
    decreases a.len(),
{
    if a.len() > 0 && b.len() > 0 && c.len() > 0 && a[0] == b[0] && b[0] == c[0] {
        lemma_chars_le_transitive(a.drop_first(), b.drop_first(), c.drop_first());
    }
}

/// Two strings each at most the other are equal.
pub proof fn lemma_chars_le_antisymmetric(a: Seq<char>, b: Seq<char>)
    requires
        chars_le(a, b),
        chars_le(b, a),
    ensures
        a == b,
    decreases a.len(),
{
    if a.len() > 0 && b.len() > 0 {
        lemma_chars_le_antisymmetric(a.drop_first(), b.drop_first());
        assert(a == seq![a[0]] + a.drop_first());
        assert(b == seq![b[0]] + b.drop_first());
    }
}

proof fn lemma_chars_le_skip(a: Seq<char>, b: Seq<char>, i: int)
    requires
        0 <= i <= a.len(),
        i <= b.len(),
        forall|j: int| 0 <= j < i ==> a[j] == b[j],
    ensures
        chars_le(a, b) == chars_le(a.skip(i), b.skip(i)),
    decreases i,
{
    if i > 0 {
        assert(a[0] == b[0]);
        assert forall|j: int| 0 <= j < i - 1 implies a.drop_first()[j] == b.drop_first()[j] by {
            assert(a[j + 1] == b[j + 1]);
        }
        lemma_chars_le_skip(a.drop_first(), b.drop_first(), i - 1);
        assert(a.drop_first().skip(i - 1) == a.skip(i));
        assert(b.drop_first().skip(i - 1) == b.skip(i));
    } else {
        assert(a.skip(0) == a);
        assert(b.skip(0) == b);
    }
}

/// An ordering key: compared by `major`, then `minor`, then `text`.
pub struct OrderKey {
    pub major: u8,
    pub minor: u8,
    pub text: Vec<char>,
}

impl View for OrderKey {
    type V = (u8, u8, Seq<char>);

    open spec fn view(&self) -> (u8, u8, Seq<char>) {
        (self.major, self.minor, self.text@)
    }
}

pub open spec fn key_le(a: (u8, u8, Seq<char>), b: (u8, u8, Seq<char>)) -> bool {
    ||| a.0 < b.0
    ||| a.0 == b.0 && a.1 < b.1
    ||| a.0 == b.0 && a.1 == b.1 && chars_le(a.2, b.2)
}

pub open spec fn key_lt(a: (u8, u8, Seq<char>), b: (u8, u8, Seq<char>)) -> bool {
    !key_le(b, a)
}

pub proof fn lemma_key_le_total(a: (u8, u8, Seq<char>), b: (u8, u8, Seq<char>))
    ensures
        key_le(a, b) || key_le(b, a),
{
    lemma_chars_le_total(a.2, b.2);
}

pub proof fn lemma_key_le_transitive(
    a: (u8, u8, Seq<char>),
    b: (u8, u8, Seq<char>),
    c: (u8, u8, Seq<char>),
)
    requires
        key_le(a, b),
        key_le(b, c),
    ensures
        key_le(a, c),
{
    if a.0 == b.0 && a.1 == b.1 && b.0 == c.0 && b.1 == c.1 {
        lemma_chars_le_transitive(a.2, b.2, c.2);
    }
}

/// `a < b` for ordering keys.
pub fn key_less(a: &OrderKey, b: &OrderKey) -> (r: bool)
    ensures
        r == key_lt(a@, b@),
{
    if a.major != b.major {
        return a.major < b.major;
    }
    if a.minor != b.minor {
        return a.minor < b.minor;
    }
    let x = &a.text;
    let y = &b.text;
    let mut i: usize = 0;
    while i < x.len() && i < y.len()
        invariant
            i <= x.len(),
            i <= y.len(),
            a.major == b.major,
            a.minor == b.minor,
            x@ == a.text@,
            y@ == b.text@,
            forall|j: int| 0 <= j < i ==> x@[j] == y@[j],
        decreases x.len() - i,
    {
        if x[i] != y[i] {
            proof {
                lemma_chars_le_skip(y@, x@, i as int);
                assert(y@.skip(i as int)[0] == y@[i as int]);
                assert(x@.skip(i as int)[0] == x@[i as int]);
                assert(chars_le(y@.skip(i as int), x@.skip(i as int)) == (y@[i as int] < x@[i as int]));
                assert(key_lt(a@, b@) == !chars_le(y@, x@));
                assert((x@[i as int] < y@[i as int]) == !(y@[i as int] < x@[i as int]));
            }
            return x[i] < y[i];
        }
        i = i + 1;
    }
    proof {
        lemma_chars_le_skip(y@, x@, i as int);
    }
    x.len() < y.len()
}

/// `p` lists the indices of `keys` once each, in key order, and indices with
/// equal keys in their own order: the order that a stable sort by key gives.
pub open spec fn stable_sorts(keys: Seq<(u8, u8, Seq<char>)>, p: Seq<int>) -> bool {
    &&& p.len() == keys.len()
    &&& forall|k: int| 0 <= k < p.len() ==> 0 <= #[trigger] p[k] < keys.len()
    &&& forall|k1: int, k2: int| 0 <= k1 < k2 < p.len() ==> p[k1] != p[k2]
    &&& forall|k1: int, k2: int|
        0 <= k1 < k2 < p.len() ==> key_le(keys[#[trigger] p[k1]], keys[#[trigger] p[k2]])
    &&& forall|k1: int, k2: int|
        0 <= k1 < k2 < p.len() && #[trigger] p[k1] > #[trigger] p[k2] ==> key_lt(
            keys[p[k1]],
            keys[p[k2]],
        )
}

pub open spec fn keys_view(keys: Seq<OrderKey>) -> Seq<(u8, u8, Seq<char>)> {
    keys.map_values(|k: OrderKey| k@)
}

pub open spec fn as_ints(v: Seq<usize>) -> Seq<int> {
    v.map_values(|x: usize| x as int)
}

/// The indices of `keys` in the order of a stable sort by key.
pub fn stable_order(keys: &Vec<OrderKey>) -> (r: Vec<usize>)
    ensures
        stable_sorts(keys_view(keys@), as_ints(r@)),
{
    let ghost ks = keys_view(keys@);
    let mut idx: Vec<usize> = Vec::new();
    let mut i: usize = 0;
    while i < keys.len()
        invariant
            i <= keys.len(),
            ks == keys_view(keys@),
            idx.len() == i,
            forall|k: int| 0 <= k < idx.len() ==> #[trigger] idx@[k] < i,
            forall|k1: int, k2: int| 0 <= k1 < k2 < idx.len() ==> idx@[k1] != idx@[k2],
            forall|k1: int, k2: int|
                0 <= k1 < k2 < idx.len() ==> key_le(
                    ks[#[trigger] idx@[k1] as int],
                    ks[#[trigger] idx@[k2] as int],
                ),
            forall|k1: int, k2: int|
                0 <= k1 < k2 < idx.len() && #[trigger] idx@[k1] > #[trigger] idx@[k2] ==> key_lt(
                    ks[idx@[k1] as int],
                    ks[idx@[k2] as int],
                ),
        decreases keys.len() - i,
    {
        let mut pos: usize = 0;
        while pos < idx.len() && !key_less(&keys[i], &keys[idx[pos]])
            invariant
                pos <= idx.len(),
                i < keys.len(),
                ks == keys_view(keys@),
                forall|k: int| 0 <= k < idx.len() ==> #[trigger] idx@[k] < i,
                forall|k: int| 0 <= k < pos ==> !key_lt(ks[i as int], ks[#[trigger] idx@[k] as int]),
            decreases idx.len() - pos,
        {
            pos = pos + 1;
        }
        let ghost old_idx = idx@;
        proof {
            assert forall|k: int| 0 <= k < pos implies key_le(ks[#[trigger] old_idx[k] as int], ks[i as int]) by {
                lemma_key_le_total(ks[old_idx[k] as int], ks[i as int]);
            }
            if pos < old_idx.len() {
                assert(key_lt(ks[i as int], ks[old_idx[pos as int] as int]));
                assert forall|k: int| pos <= k < old_idx.len() implies key_lt(ks[i as int], ks[#[trigger] old_idx[k] as int]) by {
                    if k > pos {
                        assert(key_le(ks[old_idx[pos as int] as int], ks[old_idx[k] as int]));
                        if key_le(ks[old_idx[k] as int], ks[i as int]) {
                            lemma_key_le_transitive(ks[old_idx[pos as int] as int], ks[old_idx[k] as int], ks[i as int]);
                        }
                    }
                }
            }
        }
        idx.insert(pos, i);
        proof {
            let n = idx@;
            assert(n == old_idx.insert(pos as int, i));
            assert forall|k: int| 0 <= k < n.len() implies #[trigger] n[k] < i + 1 by {
                if k < pos {
                    assert(n[k] == old_idx[k]);
                } else if k > pos {
                    assert(n[k] == old_idx[k - 1]);
                }
            }
            assert forall|k1: int, k2: int| 0 <= k1 < k2 < n.len() implies n[k1] != n[k2] by {
                if k1 != pos && k2 != pos {
                    let a = if k1 < pos { k1 } else { k1 - 1 };
                    let b = if k2 < pos { k2 } else { k2 - 1 };
                    assert(n[k1] == old_idx[a] && n[k2] == old_idx[b]);
                } else if k1 == pos {
                    assert(n[k2] == old_idx[k2 - 1]);
                } else {
                    assert(n[k1] == old_idx[k1]);
                }
            }
            assert forall|k1: int, k2: int| 0 <= k1 < k2 < n.len() implies key_le(
                ks[#[trigger] n[k1] as int],
                ks[#[trigger] n[k2] as int],
            ) by {
                if k1 != pos && k2 != pos {
                    let a = if k1 < pos { k1 } else { k1 - 1 };
                    let b = if k2 < pos { k2 } else { k2 - 1 };
                    assert(n[k1] == old_idx[a] && n[k2] == old_idx[b]);
                } else if k1 == pos {
                    assert(n[k2] == old_idx[k2 - 1]);
                    assert(key_lt(ks[i as int], ks[old_idx[k2 - 1] as int]));
                    lemma_key_le_total(ks[i as int], ks[old_idx[k2 - 1] as int]);
                } else {
                    assert(n[k1] == old_idx[k1]);
                }
            }
            assert forall|k1: int, k2: int| 0 <= k1 < k2 < n.len() && #[trigger] n[k1] > #[trigger] n[k2] implies key_lt(
                ks[n[k1] as int],
                ks[n[k2] as int],
            ) by {
                if k1 != pos && k2 != pos {
                    let a = if k1 < pos { k1 } else { k1 - 1 };
                    let b = if k2 < pos { k2 } else { k2 - 1 };
                    assert(n[k1] == old_idx[a] && n[k2] == old_idx[b]);
                } else if k1 == pos {
                    assert(n[k2] == old_idx[k2 - 1]);
                } else {
                    assert(n[k1] == old_idx[k1]);
                }
            }
        }
        i = i + 1;
    }
    proof {
        let p = as_ints(idx@);
        assert forall|k: int| 0 <= k < p.len() implies 0 <= #[trigger] p[k] < ks.len() by {
            assert(p[k] == idx@[k] as int);
        }
        assert forall|k1: int, k2: int| 0 <= k1 < k2 < p.len() implies p[k1] != p[k2] by {
            assert(p[k1] == idx@[k1] as int && p[k2] == idx@[k2] as int);
        }
        assert forall|k1: int, k2: int| 0 <= k1 < k2 < p.len() implies key_le(ks[#[trigger] p[k1]], ks[#[trigger] p[k2]]) by {
            assert(p[k1] == idx@[k1] as int && p[k2] == idx@[k2] as int);
        }
        assert forall|k1: int, k2: int| 0 <= k1 < k2 < p.len() && #[trigger] p[k1] > #[trigger] p[k2] implies key_lt(ks[p[k1]], ks[p[k2]]) by {
            assert(p[k1] == idx@[k1] as int && p[k2] == idx@[k2] as int);
        }
    }
    idx
}

/// The rank of a risk level; higher risk ranks higher.
pub open spec fn risk_rank_of(risk: RiskLevel) -> u8 {
    match risk {
        RiskLevel::High => 2,
        RiskLevel::Medium => 1,
        RiskLevel::Low => 0,
    }
}

/// The rank of a risk level; higher risk ranks higher.
pub fn risk_rank(risk: RiskLevel) -> (r: u8)
    ensures
        r == risk_rank_of(risk),
{
    match risk {
        RiskLevel::High => 2,
        RiskLevel::Medium => 1,
        RiskLevel::Low => 0,
    }
}

/// Tasks are listed open before closed, then by falling risk, then by title.
pub open spec fn task_key(t: ReviewTask) -> (u8, u8, Seq<char>) {
    (if t.status.spec_is_closed() {
        1u8
    } else {
        0u8
    }, (2 - risk_rank_of(t.stats.risk)) as u8, t.title@)
}

/// The name a sub-flow is ordered by: its own, or `ZZZ` for tasks without one.
pub open spec fn sub_flow_sort_name(name: Option<String>) -> Seq<char> {
    match name {
        Some(n) => n@,
        None => "ZZZ"@,
    }
}

/// Sub-flows are listed by name.
pub open spec fn sub_flow_key(g: (Option<String>, Vec<ReviewTask>)) -> (u8, u8, Seq<char>) {
    (0u8, 0u8, sub_flow_sort_name(g.0))
}

pub open spec fn task_keys(tasks: Seq<ReviewTask>) -> Seq<(u8, u8, Seq<char>)> {
    tasks.map_values(|t: ReviewTask| task_key(t))
}

pub open spec fn sub_flow_keys(groups: Seq<(Option<String>, Vec<ReviewTask>)>) -> Seq<(u8, u8, Seq<char>)> {
    groups.map_values(|g: (Option<String>, Vec<ReviewTask>)| sub_flow_key(g))
}

fn task_order_key(t: &ReviewTask) -> (r: OrderKey)
    ensures
        r@ == task_key(*t),
{
    let major: u8 = if t.status.is_closed() {
        1
    } else {
        0
    };
    OrderKey { major, minor: 2 - risk_rank(t.stats.risk), text: chars_of(t.title.as_str()) }
}

fn sub_flow_order_key(g: &(Option<String>, Vec<ReviewTask>)) -> (r: OrderKey)
    ensures
        r@ == sub_flow_key(*g),
{
    let text = match &g.0 {
        Some(n) => chars_of(n.as_str()),
        None => chars_of("ZZZ"),
    };
    OrderKey { major: 0, minor: 0, text }
}

/// The tasks of one sub-flow in display order: open before closed, then by
/// falling risk, then by title; tasks equal in all three keep their order.
pub fn tasks_in_sub_flow_display_order(tasks: &Vec<ReviewTask>) -> (r: Vec<&ReviewTask>)
    ensures
        exists|p: Seq<int>|
            {
                &&& stable_sorts(task_keys(tasks@), p)
                &&& r@.len() == p.len()
                &&& forall|k: int| 0 <= k < p.len() ==> *r@[k] == tasks@[#[trigger] p[k]]
            },
{
    let mut keys: Vec<OrderKey> = Vec::new();
    let mut i: usize = 0;
    while i < tasks.len()
        invariant
            i <= tasks.len(),
            keys@.len() == i,
            forall|j: int| 0 <= j < i ==> (#[trigger] keys@[j])@ == task_key(tasks@[j]),
        decreases tasks.len() - i,
    {
        let k = task_order_key(&tasks[i]);
        keys.push(k);
        i = i + 1;
    }
    assert(keys_view(keys@) =~= task_keys(tasks@));
    let order = stable_order(&keys);
    let ghost p = as_ints(order@);
    let mut out: Vec<&ReviewTask> = Vec::new();
    let mut k: usize = 0;
    while k < order.len()
        invariant
            k <= order.len(),
            p == as_ints(order@),
            stable_sorts(task_keys(tasks@), p),
            out@.len() == k,
            forall|j: int| 0 <= j < k ==> *out@[j] == tasks@[#[trigger] p[j]],
        decreases order.len() - k,
    {
        assert(p[k as int] == order@[k as int] as int);
        assert(0 <= p[k as int] < tasks.len());
        out.push(&tasks[order[k]]);
        k = k + 1;
    }
    out
}

/// The tasks grouped by sub-flow, each sub-flow (or the group of tasks with
/// none) once, as the keys of a map are.
pub open spec fn sub_flows_distinct(groups: Seq<(Option<String>, Vec<ReviewTask>)>) -> bool {
    forall|i: int, j: int|
        0 <= i < j < groups.len() ==> opt_str((#[trigger] groups[i]).0) != opt_str(
            (#[trigger] groups[j]).0,
        )
}

/// The sub-flows in display order: by name, those without a name as if named
/// `ZZZ`; sub-flows with equal names keep their order.
pub fn sub_flows_in_display_order(groups: &Vec<(Option<String>, Vec<ReviewTask>)>) -> (r: Vec<
    &(Option<String>, Vec<ReviewTask>),
>)
    requires
        sub_flows_distinct(groups@),
    ensures
        exists|p: Seq<int>|
            {
                &&& stable_sorts(sub_flow_keys(groups@), p)
                &&& r@.len() == p.len()
                &&& forall|k: int| 0 <= k < p.len() ==> *r@[k] == groups@[#[trigger] p[k]]
            },
{
    let mut keys: Vec<OrderKey> = Vec::new();
    let mut i: usize = 0;
    while i < groups.len()
        invariant
            i <= groups.len(),
            keys@.len() == i,
            forall|j: int| 0 <= j < i ==> (#[trigger] keys@[j])@ == sub_flow_key(groups@[j]),
        decreases groups.len() - i,
    {
        let k = sub_flow_order_key(&groups[i]);
        keys.push(k);
        i = i + 1;
    }
    assert(keys_view(keys@) =~= sub_flow_keys(groups@));
    let order = stable_order(&keys);
    let ghost p = as_ints(order@);
    let mut out: Vec<&(Option<String>, Vec<ReviewTask>)> = Vec::new();
    let mut k: usize = 0;
    while k < order.len()
        invariant
            k <= order.len(),
            p == as_ints(order@),
            stable_sorts(sub_flow_keys(groups@), p),
            out@.len() == k,
            forall|j: int| 0 <= j < k ==> *out@[j] == groups@[#[trigger] p[j]],
        decreases order.len() - k,
    {
        assert(p[k as int] == order@[k as int] as int);
        assert(0 <= p[k as int] < groups.len());
        out.push(&groups[order[k]]);
        k = k + 1;
    }
    out
}

/// `part` is `tasks` in their display order.
pub open spec fn in_task_order(tasks: Seq<ReviewTask>, part: Seq<ReviewTask>) -> bool {
    exists|p: Seq<int>|
        {
            &&& stable_sorts(task_keys(tasks), p)
            &&& part.len() == p.len()
            &&& forall|k: int| 0 <= k < p.len() ==> part[k] == tasks[#[trigger] p[k]]
        }
}

pub open spec fn derefs<T>(r: Seq<&T>) -> Seq<T> {
    r.map_values(|t: &T| *t)
}

/// All tasks in display order: sub-flow after sub-flow in their display
/// order, the tasks of each in theirs.
pub fn tasks_in_display_order(groups: &Vec<(Option<String>, Vec<ReviewTask>)>) -> (r: Vec<
    &ReviewTask,
>)
    requires
        sub_flows_distinct(groups@),
    ensures
        exists|gp: Seq<int>, parts: Seq<Seq<ReviewTask>>|
            {
                &&& stable_sorts(sub_flow_keys(groups@), gp)
                &&& parts.len() == gp.len()
                &&& forall|k: int|
                    0 <= k < gp.len() ==> in_task_order(groups@[#[trigger] gp[k]].1@, parts[k])
                &&& derefs(r@) == parts.flatten()
            },
{
    let flows = sub_flows_in_display_order(groups);
    let ghost gp = choose|p: Seq<int>|
        {
            &&& stable_sorts(sub_flow_keys(groups@), p)
            &&& flows@.len() == p.len()
            &&& forall|k: int| 0 <= k < p.len() ==> *flows@[k] == groups@[#[trigger] p[k]]
        };
    let ghost mut parts: Seq<Seq<ReviewTask>> = seq![];
    let mut out: Vec<&ReviewTask> = Vec::new();
    let mut k: usize = 0;
    while k < flows.len()
        invariant
            k <= flows.len(),
            stable_sorts(sub_flow_keys(groups@), gp),
            flows@.len() == gp.len(),
            forall|j: int| 0 <= j < gp.len() ==> *flows@[j] == groups@[#[trigger] gp[j]],
            parts.len() == k,
            forall|j: int| 0 <= j < k ==> in_task_order(groups@[#[trigger] gp[j]].1@, parts[j]),
            derefs(out@) == parts.flatten(),
        decreases flows.len() - k,
    {
        let group = flows[k];
        let ordered = tasks_in_sub_flow_display_order(&group.1);
        let ghost part = derefs(ordered@);
        proof {
            let p = choose|p: Seq<int>|
                {
                    &&& stable_sorts(task_keys(group.1@), p)
                    &&& ordered@.len() == p.len()
                    &&& forall|j: int| 0 <= j < p.len() ==> *ordered@[j] == group.1@[#[trigger] p[j]]
                };
            assert(in_task_order(group.1@, part));
        }
        let ghost before = out@;
        let mut j: usize = 0;
        while j < ordered.len()
            invariant
                j <= ordered.len(),
                derefs(out@) == derefs(before) + part.take(j as int),
                part == derefs(ordered@),
            decreases ordered.len() - j,
        {
            let ghost o = out@;
            out.push(ordered[j]);
            j = j + 1;
            assert(derefs(out@) =~= derefs(o).push(part[j - 1]));
            assert(part.take(j as int) =~= part.take(j - 1).push(part[j - 1]));
        }
        proof {
            assert(part.take(ordered.len() as int) == part);
            parts.lemma_flatten_push(part);
            parts = parts.push(part);
        }
        k = k + 1;
    }
    out
}

/// A stable-sort order lists every index.
pub proof fn lemma_stable_sort_covers(keys: Seq<(u8, u8, Seq<char>)>, p: Seq<int>, i: int)
    requires
        stable_sorts(keys, p),
        0 <= i < keys.len(),
    ensures
        exists|k: int| 0 <= k < p.len() && p[k] == i,
{
    assert(p.no_duplicates()) by {
        assert forall|a: int, b: int| 0 <= a < p.len() && 0 <= b < p.len() && a != b implies p[a] != p[b] by {
            if a < b {
                assert(p[a] != p[b]);
            } else {
                assert(p[b] != p[a]);
            }
        }
    }
    p.unique_seq_to_set();
    let range = vstd::set_lib::set_int_range(0, keys.len() as int);
    vstd::set_lib::lemma_int_range(0, keys.len() as int);
    assert(p.to_set().subset_of(range)) by {
        assert forall|x: int| p.to_set().contains(x) implies range.contains(x) by {
            let k = choose|k: int| 0 <= k < p.len() && p[k] == x;
        }
    }
    vstd::set_lib::lemma_subset_equality(p.to_set(), range);
    assert(range.contains(i));
    assert(p.to_set().contains(i));
}

/// Index `a` comes before index `b` in a stable sort by `keys`.
pub open spec fn sorts_before(keys: Seq<(u8, u8, Seq<char>)>, a: int, b: int) -> bool {
    key_lt(keys[a], keys[b]) || (key_le(keys[a], keys[b]) && key_le(keys[b], keys[a]) && a < b)
}

proof fn lemma_sorted_pairs(keys: Seq<(u8, u8, Seq<char>)>, p: Seq<int>, k1: int, k2: int)
    requires
        stable_sorts(keys, p),
        0 <= k1 < k2 < p.len(),
    ensures
        sorts_before(keys, p[k1], p[k2]),
        !sorts_before(keys, p[k2], p[k1]),
{
    let a = p[k1];
    let b = p[k2];
    assert(key_le(keys[a], keys[b]));
    assert(a != b);
    lemma_key_le_total(keys[a], keys[b]);
}

proof fn lemma_unique_upto(keys: Seq<(u8, u8, Seq<char>)>, p: Seq<int>, q: Seq<int>, k: int)
    requires
        stable_sorts(keys, p),
        stable_sorts(keys, q),
        0 <= k <= p.len(),
    ensures
        forall|j: int| 0 <= j < k ==> p[j] == q[j],
    decreases k,
{
    if k > 0 {
        lemma_unique_upto(keys, p, q, k - 1);
        let m = k - 1;
        if p[m] != q[m] {
            let x = p[m];
            let y = q[m];
            lemma_stable_sort_covers(keys, p, y);
            let jp = choose|j: int| 0 <= j < p.len() && p[j] == y;
            lemma_stable_sort_covers(keys, q, x);
            let jq = choose|j: int| 0 <= j < q.len() && q[j] == x;
            if jp < m {
                assert(q[jp] == y);
                assert(q[jp] != q[m]);
            }
            if jq < m {
                assert(p[jq] == x);
                assert(p[jq] != p[m]);
            }
            assert(jp > m && jq > m);
            lemma_sorted_pairs(keys, p, m, jp);
            lemma_sorted_pairs(keys, q, m, jq);
            assert(false);
        }
    }
}

/// The display order is determined by the keys alone: two orders that both
/// sort the same keys stably are the same order.
pub proof fn lemma_stable_sort_unique(keys: Seq<(u8, u8, Seq<char>)>, p: Seq<int>, q: Seq<int>)
    requires
        stable_sorts(keys, p),
        stable_sorts(keys, q),
    ensures
        p == q,
{
    lemma_unique_upto(keys, p, q, p.len() as int);
    assert(p =~= q);
}

/// `x` is one of `s`.
pub open spec fn occurs_in(x: ReviewTask, s: Seq<ReviewTask>) -> bool {
    exists|k: int| 0 <= k < s.len() && s[k] == x
}

/// The display order of a sub-flow lists exactly its tasks: as many, each
/// task among them, and nothing else.
pub proof fn lemma_task_order_lists_all(tasks: Seq<ReviewTask>, part: Seq<ReviewTask>)
    requires
        in_task_order(tasks, part),
    ensures
        part.len() == tasks.len(),
        forall|i: int| 0 <= i < tasks.len() ==> occurs_in(#[trigger] tasks[i], part),
        forall|k: int| 0 <= k < part.len() ==> occurs_in(#[trigger] part[k], tasks),
{
    let p = choose|p: Seq<int>|
        {
            &&& stable_sorts(task_keys(tasks), p)
            &&& part.len() == p.len()
            &&& forall|k: int| 0 <= k < p.len() ==> part[k] == tasks[#[trigger] p[k]]
        };
    assert forall|i: int| 0 <= i < tasks.len() implies occurs_in(#[trigger] tasks[i], part) by {
        lemma_stable_sort_covers(task_keys(tasks), p, i);
        let k = choose|k: int| 0 <= k < p.len() && p[k] == i;
        assert(part[k] == tasks[p[k]]);
    }
    assert forall|k: int| 0 <= k < part.len() implies occurs_in(#[trigger] part[k], tasks) by {
        assert(part[k] == tasks[p[k]]);
    }
}

/// A sub-flow has one display order: any two listings of its tasks in
/// display order are the same.
pub proof fn lemma_task_order_unique(
    tasks: Seq<ReviewTask>,
    part1: Seq<ReviewTask>,
    part2: Seq<ReviewTask>,
)
    requires
        in_task_order(tasks, part1),
        in_task_order(tasks, part2),
    ensures
        part1 == part2,
{
    let p1 = choose|p: Seq<int>|
        {
            &&& stable_sorts(task_keys(tasks), p)
            &&& part1.len() == p.len()
            &&& forall|k: int| 0 <= k < p.len() ==> part1[k] == tasks[#[trigger] p[k]]
        };
    let p2 = choose|p: Seq<int>|
        {
            &&& stable_sorts(task_keys(tasks), p)
            &&& part2.len() == p.len()
            &&& forall|k: int| 0 <= k < p.len() ==> part2[k] == tasks[#[trigger] p[k]]
        };
    lemma_stable_sort_unique(task_keys(tasks), p1, p2);
    assert forall|k: int| 0 <= k < part1.len() implies part1[k] == part2[k] by {
        assert(part1[k] == tasks[p1[k]]);
        assert(part2[k] == tasks[p2[k]]);
    }
    assert(part1 =~= part2);
}

/// In a sub-flow's display order no closed task comes before an open one,
/// and among tasks that are both open (or both closed) riskier ones come
/// first.
pub proof fn lemma_task_order_open_and_risky_first(tasks: Seq<ReviewTask>, part: Seq<ReviewTask>)
    requires
        in_task_order(tasks, part),
    ensures
        forall|k1: int, k2: int|
            0 <= k1 < k2 < part.len() && !(#[trigger] part[k2]).status.spec_is_closed()
                ==> !(#[trigger] part[k1]).status.spec_is_closed(),
        forall|k1: int, k2: int|
            0 <= k1 < k2 < part.len() && (#[trigger] part[k1]).status.spec_is_closed() == (
            #[trigger] part[k2]).status.spec_is_closed() ==> risk_rank_of(part[k1].stats.risk)
                >= risk_rank_of(part[k2].stats.risk),
{
    let p = choose|p: Seq<int>|
        {
            &&& stable_sorts(task_keys(tasks), p)
            &&& part.len() == p.len()
            &&& forall|k: int| 0 <= k < p.len() ==> part[k] == tasks[#[trigger] p[k]]
        };
    assert forall|k1: int, k2: int| 0 <= k1 < k2 < part.len() implies key_le(
        task_key(#[trigger] part[k1]),
        task_key(#[trigger] part[k2]),
    ) by {
        assert(part[k1] == tasks[p[k1]] && part[k2] == tasks[p[k2]]);
        assert(task_keys(tasks)[p[k1]] == task_key(tasks[p[k1]]));
        assert(task_keys(tasks)[p[k2]] == task_key(tasks[p[k2]]));
    }
}

/// Sub-flows are listed in the order of their names (an unnamed sub-flow
/// as `ZZZ`).
pub proof fn lemma_sub_flows_by_name(
    groups: Seq<(Option<String>, Vec<ReviewTask>)>,
    gp: Seq<int>,
)
    requires
        stable_sorts(sub_flow_keys(groups), gp),
    ensures
        forall|k1: int, k2: int|
            0 <= k1 < k2 < gp.len() ==> chars_le(
                sub_flow_sort_name(groups[#[trigger] gp[k1]].0),
                sub_flow_sort_name(groups[#[trigger] gp[k2]].0),
            ),
{
    assert forall|k1: int, k2: int| 0 <= k1 < k2 < gp.len() implies chars_le(
        sub_flow_sort_name(groups[#[trigger] gp[k1]].0),
        sub_flow_sort_name(groups[#[trigger] gp[k2]].0),
    ) by {
        assert(key_le(sub_flow_keys(groups)[gp[k1]], sub_flow_keys(groups)[gp[k2]]));
    }
}

} // verus!
