//! The review and run selectors of the review screen's header.
use vstd::prelude::*;
use crate::domain::{Review, ReviewRun};
use crate::ordering::{
    as_ints, chars_le, key_less, lemma_chars_le_total, lemma_chars_le_transitive, OrderKey,
};
use crate::search::{first_match, lemma_first_match_at, lemma_first_match_none};
use crate::text::{chars_of, push_chars, push_str, slice_chars, str_eq, string_from_chars};

verus! {

pub open spec fn review_has_id(id: Seq<char>) -> spec_fn(Review) -> bool {
    |r: Review| r.id@ == id
}

/// The title of the selected review, or `fallback` where no review is
/// selected or none has the selected id.
pub open spec fn selected_title(reviews: Seq<Review>, selected: Option<String>, fallback: Seq<char>) -> Seq<
    char,
> {
    match selected {
        Some(id) => match first_match(reviews, review_has_id(id@)) {
            Some(i) => reviews[i].title@,
            None => fallback,
        },
        None => fallback,
    }
}

fn find_review(reviews: &Vec<Review>, id: &str) -> (r: Option<usize>)
    ensures
        match r {
            Some(i) => i < reviews.len() && first_match(reviews@, review_has_id(id@)) == Some(i as int),
            None => first_match(reviews@, review_has_id(id@)) is None,
        },
{
    let ghost p = review_has_id(id@);
    let mut i: usize = 0;
    while i < reviews.len()
        invariant
            i <= reviews.len(),
            p == review_has_id(id@),
            forall|j: int| 0 <= j < i ==> !p(#[trigger] reviews@[j]),
        decreases reviews.len() - i,
    {
        if str_eq(reviews[i].id.as_str(), id) {
            proof {
                lemma_first_match_at(reviews@, p, i as int);
            }
            return Some(i);
        }
        i = i + 1;
    }
    proof {
        lemma_first_match_none(reviews@, p);
    }
    None
}

fn title_or(reviews: &Vec<Review>, selected: &Option<String>, fallback: &str) -> (r: String)
    ensures
        r@ == selected_title(reviews@, *selected, fallback@),
{
    match selected {
        Some(id) => match find_review(reviews, id.as_str()) {
            Some(i) => reviews[i].title.clone(),
            None => string_from_chars(&chars_of(fallback)),
        },
        None => string_from_chars(&chars_of(fallback)),
    }
}

/// The label of the review selector: the selected review's title, or
/// `Select review…`.
pub fn review_selector_label(reviews: &Vec<Review>, selected: &Option<String>) -> (r: String)
    ensures
        r@ == selected_title(reviews@, *selected, "Select review…"@),
{
    title_or(reviews, selected, "Select review…")
}

/// The title of the export window: the selected review's title, or
/// `Review`.
pub fn export_review_title(reviews: &Vec<Review>, selected: &Option<String>) -> (r: String)
    ensures
        r@ == selected_title(reviews@, *selected, "Review"@),
{
    title_or(reviews, selected, "Review")
}

/// The first `n` characters of `s` (all of it where it is shorter).
pub open spec fn first_chars(s: Seq<char>, n: int) -> Seq<char> {
    if s.len() <= n {
        s
    } else {
        s.subrange(0, n)
    }
}

fn first_chars_of(s: &str, n: usize) -> (r: Vec<char>)
    ensures
        r@ == first_chars(s@, n as int),
{
    let cs = chars_of(s);
    if cs.len() <= n {
        cs
    } else {
        slice_chars(&cs, 0, n)
    }
}

/// A run of review `review_id` with id `run_id`.
pub open spec fn run_of_review_with_id(review_id: Seq<char>, run_id: Seq<char>) -> spec_fn(ReviewRun) -> bool {
    |r: ReviewRun| r.review_id@ == review_id && r.id@ == run_id
}

/// The label of the run selector of review `review_id`: `Run `, the first
/// six characters of the selected run's id and `…`, where the selected run
/// is one of the review's runs; else `Select run…`.
pub open spec fn run_label_of(runs: Seq<ReviewRun>, review_id: Seq<char>, selected: Option<String>) -> Seq<
    char,
> {
    match selected {
        Some(id) => match first_match(runs, run_of_review_with_id(review_id, id@)) {
            Some(i) => "Run "@ + first_chars(runs[i].id@, 6) + "…"@,
            None => "Select run…"@,
        },
        None => "Select run…"@,
    }
}

/// The label of the run selector.
pub fn run_selector_label(runs: &Vec<ReviewRun>, review_id: &str, selected: &Option<String>) -> (r:
    String)
    ensures
        r@ == run_label_of(runs@, review_id@, *selected),
{
    match selected {
        None => string_from_chars(&chars_of("Select run…")),
        Some(id) => {
            let ghost p = run_of_review_with_id(review_id@, id@);
            let mut i: usize = 0;
            while i < runs.len()
                invariant
                    i <= runs.len(),
                    p == run_of_review_with_id(review_id@, id@),
                    *selected matches Some(s) && s@ == id@,
                    forall|j: int| 0 <= j < i ==> !p(#[trigger] runs@[j]),
                decreases runs.len() - i,
            {
                if str_eq(runs[i].review_id.as_str(), review_id) && str_eq(
                    runs[i].id.as_str(),
                    id.as_str(),
                ) {
                    proof {
                        lemma_first_match_at(runs@, p, i as int);
                    }
                    let mut out = chars_of("Run ");
                    push_chars(&mut out, &first_chars_of(runs[i].id.as_str(), 6));
                    push_str(&mut out, "…");
                    return string_from_chars(&out);
                }
                i = i + 1;
            }
            proof {
                lemma_first_match_none(runs@, p);
            }
            string_from_chars(&chars_of("Select run…"))
        },
    }
}

/// An entry of the run selector: the first eight characters of the run's
/// id, `… (`, the agent's id and `)`.
pub fn run_option_label(run: &ReviewRun) -> (r: String)
    ensures
        r@ == first_chars(run.id@, 8) + "… ("@ + run.agent_id@ + ")"@,
{
    let mut out = first_chars_of(run.id.as_str(), 8);
    push_str(&mut out, "… (");
    push_str(&mut out, run.agent_id.as_str());
    push_str(&mut out, ")");
    string_from_chars(&out)
}

/// `p` lists, in order, the positions of the runs of review `review_id`.
pub open spec fn lists_runs_of(runs: Seq<ReviewRun>, review_id: Seq<char>, p: Seq<usize>) -> bool {
    &&& forall|k: int| 0 <= k < p.len() ==> #[trigger] p[k] < runs.len() && runs[p[k] as int].review_id@
        == review_id
    &&& forall|k1: int, k2: int| 0 <= k1 < k2 < p.len() ==> p[k1] < p[k2]
    &&& forall|j: int|
        0 <= j < runs.len() && (#[trigger] runs[j]).review_id@ == review_id ==> exists|k: int|
            0 <= k < p.len() && p[k] == j
}

/// The runs that the run selector offers: those of the selected review, in
/// their order.
pub fn runs_of_review(runs: &Vec<ReviewRun>, review_id: &str) -> (r: Vec<usize>)
    ensures
        lists_runs_of(runs@, review_id@, r@),
{
    let mut out: Vec<usize> = Vec::new();
    let mut i: usize = 0;
    while i < runs.len()
        invariant
            i <= runs.len(),
            forall|k: int| 0 <= k < out.len() ==> #[trigger] out@[k] < i && runs@[out@[k] as int].review_id@
                == review_id@,
            forall|k1: int, k2: int| 0 <= k1 < k2 < out.len() ==> out@[k1] < out@[k2],
            forall|j: int|
                0 <= j < i && (#[trigger] runs@[j]).review_id@ == review_id@ ==> exists|k: int|
                    0 <= k < out.len() && out@[k] == j,
        decreases runs.len() - i,
    {
        if str_eq(runs[i].review_id.as_str(), review_id) {
            let ghost before = out@;
            out.push(i);
            proof {
                assert(out@[before.len() as int] == i);
                assert forall|j: int|
                    0 <= j < i + 1 && (#[trigger] runs@[j]).review_id@ == review_id@ implies exists|k: int|
                    0 <= k < out.len() && out@[k] == j by {
                    if j < i {
                        let k = choose|k: int| 0 <= k < before.len() && before[k] == j;
                        assert(out@[k] == before[k]);
                    }
                }
            }
        }
        i = i + 1;
    }
    out
}

/// The order of the review selector's menu: the selected review first, then
/// newer reviews (by creation time, compared as text) first.
pub open spec fn menu_le(a: (bool, Seq<char>), b: (bool, Seq<char>)) -> bool {
    ||| a.0 && !b.0
    ||| a.0 == b.0 && chars_le(b.1, a.1)
}

pub open spec fn menu_lt(a: (bool, Seq<char>), b: (bool, Seq<char>)) -> bool {
    !menu_le(b, a)
}

proof fn lemma_menu_le_total(a: (bool, Seq<char>), b: (bool, Seq<char>))
    ensures
        menu_le(a, b) || menu_le(b, a),
{
    lemma_chars_le_total(a.1, b.1);
}

proof fn lemma_menu_le_transitive(a: (bool, Seq<char>), b: (bool, Seq<char>), c: (bool, Seq<char>))
    requires
        menu_le(a, b),
        menu_le(b, c),
    ensures
        menu_le(a, c),
{
    if a.0 == b.0 && b.0 == c.0 {
        lemma_chars_le_transitive(c.1, b.1, a.1);
    }
}

/// The key of a review in the menu: whether it is the selected one, and when
/// it was created.
pub open spec fn menu_key(r: Review, selected: Option<String>) -> (bool, Seq<char>) {
    (selected matches Some(id) && id@ == r.id@, r.created_at@)
}

pub open spec fn menu_keys(reviews: Seq<Review>, selected: Option<String>) -> Seq<(bool, Seq<char>)> {
    reviews.map_values(|r: Review| menu_key(r, selected))
}

/// `p` lists the positions of `keys` once each in menu order, positions
/// with equal keys in their own order: the order that a stable sort gives.
pub open spec fn menu_sorts(keys: Seq<(bool, Seq<char>)>, p: Seq<int>) -> bool {
    &&& p.len() == keys.len()
    &&& forall|k: int| 0 <= k < p.len() ==> 0 <= #[trigger] p[k] < keys.len()
    &&& forall|k1: int, k2: int| 0 <= k1 < k2 < p.len() ==> p[k1] != p[k2]
    &&& forall|k1: int, k2: int|
        0 <= k1 < k2 < p.len() ==> menu_le(keys[#[trigger] p[k1]], keys[#[trigger] p[k2]])
    &&& forall|k1: int, k2: int|
        0 <= k1 < k2 < p.len() && #[trigger] p[k1] > #[trigger] p[k2] ==> menu_lt(
            keys[p[k1]],
            keys[p[k2]],
        )
}

fn text_key(t: &Vec<char>) -> (r: OrderKey)
    ensures
        r@ == (0u8, 0u8, t@),
{
    OrderKey { major: 0, minor: 0, text: t.clone() }
}

fn menu_less(a: &(bool, Vec<char>), b: &(bool, Vec<char>)) -> (r: bool)
    ensures
        r == menu_lt((a.0, a.1@), (b.0, b.1@)),
{
    if a.0 != b.0 {
        a.0
    } else {
        key_less(&text_key(&b.1), &text_key(&a.1))
    }
}

/// The positions of `reviews` in the order the review selector's menu lists
/// them.
pub fn review_menu_order(reviews: &Vec<Review>, selected: &Option<String>) -> (r: Vec<usize>)
    ensures
        menu_sorts(menu_keys(reviews@, *selected), as_ints(r@)),
{
    let mut keys: Vec<(bool, Vec<char>)> = Vec::new();
    let mut i: usize = 0;
    while i < reviews.len()
        invariant
            i <= reviews.len(),
            keys.len() == i,
            forall|k: int| 0 <= k < i ==> ((#[trigger] keys@[k]).0, keys@[k].1@) == menu_key(
                reviews@[k],
                *selected,
            ),
        decreases reviews.len() - i,
    {
        let is_selected = match selected {
            Some(id) => str_eq(id.as_str(), reviews[i].id.as_str()),
            None => false,
        };
        keys.push((is_selected, chars_of(reviews[i].created_at.as_str())));
        i = i + 1;
    }
    let ghost ks = menu_keys(reviews@, *selected);
    assert forall|k: int| 0 <= k < keys.len() implies ((#[trigger] keys@[k]).0, keys@[k].1@) == ks[k] by {}
    let mut idx: Vec<usize> = Vec::new();
    let mut i: usize = 0;
    while i < keys.len()
        invariant
            i <= keys.len(),
            keys.len() == ks.len(),
            forall|k: int| 0 <= k < keys.len() ==> ((#[trigger] keys@[k]).0, keys@[k].1@) == ks[k],
            idx.len() == i,
            forall|k: int| 0 <= k < idx.len() ==> #[trigger] idx@[k] < i,
            forall|k1: int, k2: int| 0 <= k1 < k2 < idx.len() ==> idx@[k1] != idx@[k2],
            forall|k1: int, k2: int|
                0 <= k1 < k2 < idx.len() ==> menu_le(
                    ks[#[trigger] idx@[k1] as int],
                    ks[#[trigger] idx@[k2] as int],
                ),
            forall|k1: int, k2: int|
                0 <= k1 < k2 < idx.len() && #[trigger] idx@[k1] > #[trigger] idx@[k2] ==> menu_lt(
                    ks[idx@[k1] as int],
                    ks[idx@[k2] as int],
                ),
        decreases keys.len() - i,
    {
        let mut pos: usize = 0;
        while pos < idx.len() && !menu_less(&keys[i], &keys[idx[pos]])
            invariant
                pos <= idx.len(),
                i < keys.len(),
                keys.len() == ks.len(),
                forall|k: int| 0 <= k < keys.len() ==> ((#[trigger] keys@[k]).0, keys@[k].1@) == ks[k],
                forall|k: int| 0 <= k < idx.len() ==> #[trigger] idx@[k] < i,
                forall|k: int| 0 <= k < pos ==> !menu_lt(ks[i as int], ks[#[trigger] idx@[k] as int]),
            decreases idx.len() - pos,
        {
            assert(((keys@[idx@[pos as int] as int]).0, keys@[idx@[pos as int] as int].1@) == ks[idx@[pos as int] as int]);
            assert(((keys@[i as int]).0, keys@[i as int].1@) == ks[i as int]);
            pos = pos + 1;
        }
        proof {
            if pos < idx.len() {
                assert(((keys@[idx@[pos as int] as int]).0, keys@[idx@[pos as int] as int].1@) == ks[idx@[pos as int] as int]);
                assert(((keys@[i as int]).0, keys@[i as int].1@) == ks[i as int]);
            }
        }
        let ghost old_idx = idx@;
        proof {
            assert forall|k: int| 0 <= k < pos implies menu_le(ks[#[trigger] old_idx[k] as int], ks[i as int]) by {
                lemma_menu_le_total(ks[old_idx[k] as int], ks[i as int]);
            }
            if pos < old_idx.len() {
                assert(menu_lt(ks[i as int], ks[old_idx[pos as int] as int]));
                assert forall|k: int| pos <= k < old_idx.len() implies menu_lt(ks[i as int], ks[#[trigger] old_idx[k] as int]) by {
                    if k > pos {
                        assert(menu_le(ks[old_idx[pos as int] as int], ks[old_idx[k] as int]));
                        if menu_le(ks[old_idx[k] as int], ks[i as int]) {
                            lemma_menu_le_transitive(ks[old_idx[pos as int] as int], ks[old_idx[k] as int], ks[i as int]);
                        }
                    }
                }
            }
        }
        idx.insert(pos, i);
        proof {
            let n = idx@;
            assert(n == old_idx.insert(pos as int, i));
            assert forall|k: int| 0 <= k < n.len() implies #[trigger] n[k] < i + 1 by {
                if k < pos {
                    assert(n[k] == old_idx[k]);
                } else if k > pos {
                    assert(n[k] == old_idx[k - 1]);
                }
            }
            assert forall|k1: int, k2: int| 0 <= k1 < k2 < n.len() implies n[k1] != n[k2] by {
                if k1 != pos && k2 != pos {
                    let a = if k1 < pos { k1 } else { k1 - 1 };
                    let b = if k2 < pos { k2 } else { k2 - 1 };
                    assert(n[k1] == old_idx[a] && n[k2] == old_idx[b]);
                } else if k1 == pos {
                    assert(n[k2] == old_idx[k2 - 1]);
                } else {
                    assert(n[k1] == old_idx[k1]);
                }
            }
            assert forall|k1: int, k2: int| 0 <= k1 < k2 < n.len() implies menu_le(
                ks[#[trigger] n[k1] as int],
                ks[#[trigger] n[k2] as int],
            ) by {
                if k1 != pos && k2 != pos {
                    let a = if k1 < pos { k1 } else { k1 - 1 };
                    let b = if k2 < pos { k2 } else { k2 - 1 };
                    assert(n[k1] == old_idx[a] && n[k2] == old_idx[b]);
                } else if k1 == pos {
                    assert(n[k2] == old_idx[k2 - 1]);
                    assert(menu_lt(ks[i as int], ks[old_idx[k2 - 1] as int]));
                    lemma_menu_le_total(ks[i as int], ks[old_idx[k2 - 1] as int]);
                } else {
                    assert(n[k1] == old_idx[k1]);
                }
            }
            assert forall|k1: int, k2: int| 0 <= k1 < k2 < n.len() && #[trigger] n[k1] > #[trigger] n[k2] implies menu_lt(
                ks[n[k1] as int],
                ks[n[k2] as int],
            ) by {
                if k1 != pos && k2 != pos {
                    let a = if k1 < pos { k1 } else { k1 - 1 };
                    let b = if k2 < pos { k2 } else { k2 - 1 };
                    assert(n[k1] == old_idx[a] && n[k2] == old_idx[b]);
                } else if k1 == pos {
                    assert(n[k2] == old_idx[k2 - 1]);
                } else {
                    assert(n[k1] == old_idx[k1]);
                }
            }
        }
        i = i + 1;
    }
    proof {
        let p = as_ints(idx@);
        assert forall|k: int| 0 <= k < p.len() implies 0 <= #[trigger] p[k] < ks.len() by {
            assert(p[k] == idx@[k] as int);
        }
        assert forall|k1: int, k2: int| 0 <= k1 < k2 < p.len() implies p[k1] != p[k2] by {
            assert(p[k1] == idx@[k1] as int && p[k2] == idx@[k2] as int);
        }
        assert forall|k1: int, k2: int| 0 <= k1 < k2 < p.len() implies menu_le(ks[#[trigger] p[k1]], ks[#[trigger] p[k2]]) by {
            assert(p[k1] == idx@[k1] as int && p[k2] == idx@[k2] as int);
        }
        assert forall|k1: int, k2: int| 0 <= k1 < k2 < p.len() && #[trigger] p[k1] > #[trigger] p[k2] implies menu_lt(ks[p[k1]], ks[p[k2]]) by {
            assert(p[k1] == idx@[k1] as int && p[k2] == idx@[k2] as int);
        }
    }
    idx
}

proof fn lemma_menu_covers(keys: Seq<(bool, Seq<char>)>, p: Seq<int>, i: int)
    requires
        menu_sorts(keys, p),
        0 <= i < keys.len(),
    ensures
        exists|k: int| 0 <= k < p.len() && p[k] == i,
{
    assert(p.no_duplicates()) by {
        assert forall|a: int, b: int| 0 <= a < p.len() && 0 <= b < p.len() && a != b implies p[a] != p[b] by {
            if a < b {
                assert(p[a] != p[b]);
            } else {
                assert(p[b] != p[a]);
            }
        }
    }
    p.unique_seq_to_set();
    let range = vstd::set_lib::set_int_range(0, keys.len() as int);
    vstd::set_lib::lemma_int_range(0, keys.len() as int);
    assert(p.to_set().subset_of(range)) by {
        assert forall|x: int| p.to_set().contains(x) implies range.contains(x) by {
            let k = choose|k: int| 0 <= k < p.len() && p[k] == x;
        }
    }
    vstd::set_lib::lemma_subset_equality(p.to_set(), range);
    assert(range.contains(i));
    assert(p.to_set().contains(i));
}

/// The menu opens on the selected review: where a review has the selected
/// id, the first entry of the menu is one with that id.
pub proof fn lemma_selected_review_first(reviews: Seq<Review>, selected: Option<String>, p: Seq<int>, j: int)
    requires
        menu_sorts(menu_keys(reviews, selected), p),
        0 <= j < reviews.len(),
        selected matches Some(id) && reviews[j].id@ == id@,
    ensures
        p.len() > 0,
        selected matches Some(id) && reviews[p[0]].id@ == id@,
{
    let ks = menu_keys(reviews, selected);
    lemma_menu_covers(ks, p, j);
    let k = choose|k: int| 0 <= k < p.len() && p[k] == j;
    assert(ks[j].0);
    if k > 0 {
        assert(menu_le(ks[p[0]], ks[p[k]]));
    }
    assert(ks[p[0]].0);
}

/// The label of the export window's save button: `Saved!` for the first 180
/// frames after a save succeeded, else `Save Review...`.
pub fn export_save_label(save_succeeded: bool, shown_frames: u64) -> (r: &'static str)
    ensures
        r@ == if save_succeeded && shown_frames < 180 {
            "Saved!"@
        } else {
            "Save Review..."@
        },
{
    if save_succeeded && shown_frames < 180 {
        "Saved!"
    } else {
        "Save Review..."
    }
}


/// The review selector of the header: not shown (and nothing to pick) where
/// there are no reviews; otherwise shown with `review_selector_label`.
pub fn review_selector(reviews: &Vec<Review>, selected: &Option<String>) -> (r: Option<String>)
    ensures
        reviews.len() == 0 ==> r is None,
        reviews.len() > 0 ==> (r matches Some(l) && l@ == selected_title(
            reviews@,
            *selected,
            "Select review…"@,
        )),
{
    if reviews.len() == 0 {
        None
    } else {
        Some(review_selector_label(reviews, selected))
    }
}


} // verus!
