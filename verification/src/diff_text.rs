//! Raw unified-diff text: the file a diff is about, and diffs joined into one.
use vstd::prelude::*;
use crate::text::{
    chars_of, has_prefix, lines_of, slice_chars, split_lines, split_words, starts_with, str_eq,
    string_from_chars, strip_prefix, views_of, words,
};

verus! {

/// The file path of a `diff --git a/PATH b/PATH` header line: the word after
/// `--git` without its `a/`; `None` for any other line.
pub open spec fn git_header_path(line: Seq<char>) -> Option<Seq<char>> {
    if starts_with(line, "diff --git "@) && words(line).len() >= 3 {
        strip_prefix(words(line)[2], "a/"@)
    } else {
        None
    }
}

/// The path of the first `diff --git` header among `ls` that names one.
pub open spec fn first_git_header_path(ls: Seq<Seq<char>>) -> Option<Seq<char>>
    decreases ls.len(),
{
    if ls.len() == 0 {
        None
    } else {
        match git_header_path(ls[0]) {
            Some(p) => Some(p),
            None => first_git_header_path(ls.drop_first()),
        }
    }
}

proof fn lemma_first_path_skip(ls: Seq<Seq<char>>, i: int)
    requires
        0 <= i <= ls.len(),
        forall|j: int| 0 <= j < i ==> git_header_path(#[trigger] ls[j]) is None,
    ensures
        first_git_header_path(ls) == first_git_header_path(ls.skip(i)),
    decreases i,
{
    if i > 0 {
        assert(git_header_path(ls[0]) is None);
        assert forall|j: int| 0 <= j < i - 1 implies git_header_path(#[trigger] ls.drop_first()[j]) is None by {
            assert(ls.drop_first()[j] == ls[j + 1]);
        }
        lemma_first_path_skip(ls.drop_first(), i - 1);
        assert(ls.drop_first().skip(i - 1) == ls.skip(i));
    } else {
        assert(ls.skip(0) == ls);
    }
}

fn git_header_path_chars(line: &Vec<char>) -> (r: Option<Vec<char>>)
    ensures
        match r {
            Some(p) => git_header_path(line@) == Some(p@),
            None => git_header_path(line@) is None,
        },
{
    if !has_prefix(line, &chars_of("diff --git ")) {
        return None;
    }
    let parts = split_words(line);
    if parts.len() < 3 {
        return None;
    }
    assert(views_of(parts@)[2] == parts@[2]@);
    let second = &parts[2];
    proof {
        reveal_strlit("a/");
    }
    if has_prefix(second, &chars_of("a/")) {
        Some(slice_chars(second, 2, second.len()))
    } else {
        None
    }
}

/// The file that a diff is about: the path of its first `diff --git`
/// header.
pub fn extract_file_path_from_diff(diff: &str) -> (r: Option<String>)
    ensures
        match r {
            Some(p) => first_git_header_path(lines_of(diff@)) == Some(p@),
            None => first_git_header_path(lines_of(diff@)) is None,
        },
{
    let ls = split_lines(&chars_of(diff));
    let ghost lv = views_of(ls@);
    let mut i: usize = 0;
    while i < ls.len()
        invariant
            i <= ls.len(),
            lv == views_of(ls@),
            lv == lines_of(diff@),
            forall|j: int| 0 <= j < i ==> git_header_path(#[trigger] lv[j]) is None,
        decreases ls.len() - i,
    {
        assert(lv[i as int] == ls@[i as int]@);
        if let Some(p) = git_header_path_chars(&ls[i]) {
            proof {
                lemma_first_path_skip(lv, i as int);
                assert(lv.skip(i as int)[0] == lv[i as int]);
            }
            return Some(string_from_chars(&p));
        }
        i = i + 1;
    }
    proof {
        lemma_first_path_skip(lv, i as int);
        assert(lv.skip(i as int).len() == 0);
    }
    None
}

/// `parts` joined with `sep` between each two.
pub open spec fn join_with(parts: Seq<Seq<char>>, sep: Seq<char>) -> Seq<char>
    decreases parts.len(),
{
    if parts.len() == 0 {
        seq![]
    } else if parts.len() == 1 {
        parts[0]
    } else {
        join_with(parts.drop_last(), sep) + sep + parts.last()
    }
}

pub open spec fn strings_view(v: Seq<String>) -> Seq<Seq<char>> {
    v.map_values(|s: String| s@)
}

/// The diffs joined into one text, a newline between each two.
pub fn combine_diffs_to_unified_diff(diffs: &[String]) -> (r: String)
    ensures
        r@ == join_with(strings_view(diffs@), "\n"@),
{
    let mut out: Vec<char> = Vec::new();
    let mut i: usize = 0;
    while i < diffs.len()
        invariant
            i <= diffs.len(),
            out@ == join_with(strings_view(diffs@).take(i as int), "\n"@),
        decreases diffs.len() - i,
    {
        let ghost before = strings_view(diffs@).take(i as int);
        if i > 0 {
            crate::text::push_str(&mut out, "\n");
        }
        crate::text::push_str(&mut out, diffs[i].as_str());
        i = i + 1;
        proof {
            let now = strings_view(diffs@).take(i as int);
            assert(now.drop_last() == before);
            assert(now.last() == diffs@[i - 1]@);
            if i == 1 {
                assert(before.len() == 0);
                assert(join_with(before, "\n"@) == Seq::<char>::empty());
                assert(out@ == now[0]);
            }
        }
    }
    assert(strings_view(diffs@).take(diffs.len() as int) == strings_view(diffs@));
    string_from_chars(&out)
}

/// A copy of `v`.
pub(crate) fn clone_strings(v: &Vec<String>) -> (r: Vec<String>)
    ensures
        strings_view(r@) == strings_view(v@),
{
    let mut r: Vec<String> = Vec::new();
    let mut i: usize = 0;
    while i < v.len()
        invariant
            i <= v.len(),
            r.len() == i,
            forall|j: int| 0 <= j < i ==> (#[trigger] r@[j])@ == v@[j]@,
        decreases v.len() - i,
    {
        r.push(v[i].clone());
        i = i + 1;
    }
    assert(strings_view(r@) =~= strings_view(v@));
    r
}

fn same_strings(a: &Vec<String>, b: &Vec<String>) -> (r: bool)
    ensures
        r == (strings_view(a@) == strings_view(b@)),
{
    if a.len() != b.len() {
        return false;
    }
    let mut i: usize = 0;
    while i < a.len()
        invariant
            i <= a.len(),
            a.len() == b.len(),
            forall|j: int| 0 <= j < i ==> (#[trigger] a@[j])@ == b@[j]@,
        decreases a.len() - i,
    {
        if !str_eq(a[i].as_str(), b[i].as_str()) {
            assert(strings_view(a@)[i as int] != strings_view(b@)[i as int]);
            return false;
        }
        i = i + 1;
    }
    assert(strings_view(a@) =~= strings_view(b@));
    true
}

/// The cached unified diff holds the joined text of the diffs it is kept
/// with.
pub open spec fn diff_cache_wf(cache: Option<(Vec<String>, String)>) -> bool {
    cache matches Some(entry) ==> entry.1@ == join_with(strings_view(entry.0@), "\n"@)
}

/// The unified diff of a task's diffs: the cached text when it was joined
/// from the same diffs, else the diffs joined anew, which then replace the
/// cache.
pub fn cached_unified_diff(cache: &mut Option<(Vec<String>, String)>, diffs: &Vec<String>) -> (r:
    String)
    requires
        diff_cache_wf(*old(cache)),
    ensures
        r@ == join_with(strings_view(diffs@), "\n"@),
        diff_cache_wf(*final(cache)),
        *final(cache) matches Some(entry) && strings_view(entry.0@) == strings_view(diffs@)
            && entry.1@ == r@,
        (*old(cache) matches Some(entry) && strings_view(entry.0@) == strings_view(diffs@))
            ==> *final(cache) == *old(cache),
{
    let hit = match cache {
        Some(entry) => same_strings(&entry.0, diffs),
        None => false,
    };
    if hit {
        match cache {
            Some(entry) => entry.1.clone(),
            None => String::new(),
        }
    } else {
        let joined = combine_diffs_to_unified_diff(diffs.as_slice());
        *cache = Some((clone_strings(diffs), joined.clone()));
        joined
    }
}

/// The file of a line note on diff `file_idx` of a task: the file that
/// diff is about, or `unknown`.
pub fn note_file_path(diffs: &Vec<String>, file_idx: usize) -> (r: String)
    ensures
        r@ == if file_idx < diffs.len() {
            match first_git_header_path(lines_of(diffs@[file_idx as int]@)) {
                Some(p) => p,
                None => "unknown"@,
            }
        } else {
            "unknown"@
        },
{
    if file_idx < diffs.len() {
        match extract_file_path_from_diff(diffs[file_idx].as_str()) {
            Some(p) => p,
            None => string_from_chars(&chars_of("unknown")),
        }
    } else {
        string_from_chars(&chars_of("unknown"))
    }
}

} // verus!
