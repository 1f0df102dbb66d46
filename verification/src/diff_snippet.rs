//! A small unified-diff snippet around one line of one file of a diff: the
//! context shown beside a review thread or a feedback item anchored there.
use vstd::prelude::*;
use crate::search::{first_match, lemma_first_match_at, lemma_first_match_none};
use crate::unidiff_safety::{reads_safely, unidiff_reads_safely};
use crate::text::{
    chars_equal, chars_of, decimal, ends_with, has_prefix, has_suffix, lines_of,
    push_chars, push_decimal, push_str, slice_chars, starts_with, string_from_chars,
    strip_prefix, trim, trim_bounds,
};

verus! {

/// One line of a hunk.
pub struct DiffLine {
    pub source_line_no: Option<usize>,
    pub target_line_no: Option<usize>,
    pub line_type: String,
    pub value: String,
}

/// One hunk of a file's diff.
pub struct DiffHunk {
    pub source_start: usize,
    pub target_start: usize,
    pub section_header: String,
    pub lines: Vec<DiffLine>,
}

/// One file of a diff.
pub struct DiffFile {
    pub source_file: String,
    pub target_file: String,
    pub hunks: Vec<DiffHunk>,
}

pub struct LineView {
    pub source_line_no: Option<usize>,
    pub target_line_no: Option<usize>,
    pub line_type: Seq<char>,
    pub value: Seq<char>,
}

pub struct HunkView {
    pub source_start: usize,
    pub target_start: usize,
    pub section_header: Seq<char>,
    pub lines: Seq<LineView>,
}

pub struct FileView {
    pub source_file: Seq<char>,
    pub target_file: Seq<char>,
    pub hunks: Seq<HunkView>,
}

impl View for DiffLine {
    type V = LineView;

    open spec fn view(&self) -> LineView {
        LineView {
            source_line_no: self.source_line_no,
            target_line_no: self.target_line_no,
            line_type: self.line_type@,
            value: self.value@,
        }
    }
}

impl View for DiffHunk {
    type V = HunkView;

    open spec fn view(&self) -> HunkView {
        HunkView {
            source_start: self.source_start,
            target_start: self.target_start,
            section_header: self.section_header@,
            lines: self.lines@.map_values(|l: DiffLine| l@),
        }
    }
}

impl View for DiffFile {
    type V = FileView;

    open spec fn view(&self) -> FileView {
        FileView {
            source_file: self.source_file@,
            target_file: self.target_file@,
            hunks: self.hunks@.map_values(|h: DiffHunk| h@),
        }
    }
}

pub open spec fn files_view(files: Seq<DiffFile>) -> Seq<FileView> {
    files.map_values(|f: DiffFile| f@)
}

/// What `unidiff` parses from `text`: `None` where it reports an error,
/// otherwise its files with their hunks and lines.
pub uninterp spec fn unidiff_parse(text: Seq<char>) -> Option<Seq<FileView>>;

/// Parses `text` with `unidiff::PatchSet::parse` and copies out the fields
/// that a snippet reads. The result is named by `unidiff_parse`; nothing more
/// is stated of it. The parser panics on some texts; `requires` keeps to
/// those that `unidiff_reads_safely` admits.
#[verifier::external_body]
fn parse_patch_set(text: &str) -> (r: Option<Vec<DiffFile>>)
    requires
        unidiff_reads_safely(text@),
    ensures
        match r {
            Some(files) => unidiff_parse(text@) == Some(files_view(files@)),
            None => unidiff_parse(text@) is None,
        },
{
    let mut set = unidiff::PatchSet::new();
    set.parse(text).ok()?;
    Some(set.files().iter().map(|f| DiffFile {
        source_file: f.source_file.clone(), target_file: f.target_file.clone(),
        hunks: f.hunks().iter().map(|h| DiffHunk {
            source_start: h.source_start, target_start: h.target_start,
            section_header: h.section_header.clone(),
            lines: h.lines().iter().map(|l| DiffLine {
                source_line_no: l.source_line_no, target_line_no: l.target_line_no,
                line_type: l.line_type.clone(), value: l.value.clone(),
            }).collect(),
        }).collect(),
    }).collect())
}

/// `path` without a leading `b/`, else without a leading `a/`.
pub open spec fn normalize_path(path: Seq<char>) -> Seq<char> {
    match strip_prefix(path, "b/"@) {
        Some(t) => t,
        None => match strip_prefix(path, "a/"@) {
            Some(t) => t,
            None => path,
        },
    }
}

/// The part of `path` after its last `/` (all of it where it has none).
pub open spec fn basename(path: Seq<char>) -> Seq<char>
    decreases path.len(),
{
    if path.len() == 0 {
        path
    } else if path.last() == '/' {
        seq![]
    } else {
        basename(path.drop_last()).push(path.last())
    }
}

/// A path of the diff names the anchor's file: the same path, one ending in
/// `/` and the other, or the same base name.
pub open spec fn paths_match(diff_path: Seq<char>, anchor: Seq<char>, anchor_base: Seq<char>) -> bool {
    ||| diff_path == anchor
    ||| ends_with(diff_path, seq!['/'] + anchor)
    ||| ends_with(anchor, seq!['/'] + diff_path)
    ||| basename(diff_path) == anchor_base
}

pub open spec fn file_matches(f: FileView, anchor: Seq<char>, anchor_base: Seq<char>) -> bool {
    paths_match(normalize_path(f.target_file), anchor, anchor_base) || paths_match(
        normalize_path(f.source_file),
        anchor,
        anchor_base,
    )
}

/// A line of the hunk numbered `n` in the old or the new file.
pub open spec fn line_numbered(l: LineView, n: usize) -> bool {
    l.source_line_no == Some(n) || l.target_line_no == Some(n)
}

pub open spec fn numbered(n: usize) -> spec_fn(LineView) -> bool {
    |l: LineView| line_numbered(l, n)
}

pub open spec fn hunk_has_line(h: HunkView, n: usize) -> bool {
    first_match(h.lines, numbered(n)) is Some
}

pub open spec fn holds_line(n: usize) -> spec_fn(HunkView) -> bool {
    |h: HunkView| hunk_has_line(h, n)
}

pub open spec fn matches_anchor(anchor: Seq<char>, anchor_base: Seq<char>) -> spec_fn(FileView) -> bool {
    |f: FileView| file_matches(f, anchor, anchor_base)
}

/// The first line of the window of at most four lines each side of `idx`.
pub open spec fn window_start(idx: int) -> int {
    if idx >= 4 {
        idx - 4
    } else {
        0
    }
}

/// One past the last line of that window.
pub open spec fn window_end(idx: int, len: int) -> int {
    if idx + 4 < len - 1 {
        idx + 5
    } else {
        len
    }
}

/// The first old-file line number among `s`.
pub open spec fn first_source_no(s: Seq<LineView>) -> Option<usize>
    decreases s.len(),
{
    if s.len() == 0 {
        None
    } else {
        match first_source_no(s.drop_last()) {
            Some(n) => Some(n),
            None => s.last().source_line_no,
        }
    }
}

/// The first new-file line number among `s`.
pub open spec fn first_target_no(s: Seq<LineView>) -> Option<usize>
    decreases s.len(),
{
    if s.len() == 0 {
        None
    } else {
        match first_target_no(s.drop_last()) {
            Some(n) => Some(n),
            None => s.last().target_line_no,
        }
    }
}

/// How many of `s` have an old-file line number.
pub open spec fn count_source(s: Seq<LineView>) -> nat
    decreases s.len(),
{
    if s.len() == 0 {
        0
    } else {
        count_source(s.drop_last()) + if s.last().source_line_no is Some {
            1nat
        } else {
            0nat
        }
    }
}

/// How many of `s` have a new-file line number.
pub open spec fn count_target(s: Seq<LineView>) -> nat
    decreases s.len(),
{
    if s.len() == 0 {
        0
    } else {
        count_target(s.drop_last()) + if s.last().target_line_no is Some {
            1nat
        } else {
            0nat
        }
    }
}

/// Each line of `s` as `unidiff` displays it (its type, then its value),
/// followed by a newline.
pub open spec fn body_text(s: Seq<LineView>) -> Seq<char>
    decreases s.len(),
{
    if s.len() == 0 {
        seq![]
    } else {
        body_text(s.drop_last()) + s.last().line_type + s.last().value + "\n"@
    }
}

pub open spec fn unwrap_or(o: Option<usize>, d: usize) -> usize {
    match o {
        Some(v) => v,
        None => d,
    }
}

/// The header lines and the hunk of a snippet over the lines `slice` of `h`.
pub open spec fn render_snippet(path: Seq<char>, h: HunkView, slice: Seq<LineView>) -> Seq<char> {
    let section = if h.section_header.len() == 0 {
        seq![]
    } else {
        " "@ + h.section_header
    };
    "diff --git a/"@ + path + " b/"@ + path + "\n--- a/"@ + path + "\n+++ b/"@ + path + "\n"@
        + "@@ -"@ + decimal(unwrap_or(first_source_no(slice), h.source_start) as nat) + ","@
        + decimal(count_source(slice)) + " +"@ + decimal(
        unwrap_or(first_target_no(slice), h.target_start) as nat,
    ) + ","@ + decimal(count_target(slice)) + " @@"@ + section + "\n"@ + body_text(slice)
}

/// The path a snippet shows for `f`: the old path of a deleted file, else the
/// new one, without its `a/` or `b/`.
pub open spec fn display_path(f: FileView) -> Seq<char> {
    if f.target_file == "/dev/null"@ {
        normalize_path(f.source_file)
    } else {
        normalize_path(f.target_file)
    }
}

/// The snippet for line `n` of the first file of `files` that matches
/// `file_path`: taken from the first hunk that holds a line numbered `n` (in
/// the old or the new file), with at most four lines each side of the first
/// such line. `None` where no file matches, and `None` where the first
/// matching file has no such hunk (other files are not searched then).
pub open spec fn snippet_for_files(files: Seq<FileView>, file_path: Seq<char>, n: usize) -> Option<Seq<char>> {
    let anchor = normalize_path(file_path);
    let anchor_base = basename(anchor);
    match first_match(files, matches_anchor(anchor, anchor_base)) {
        None => None,
        Some(fi) => {
            let f = files[fi];
            match first_match(f.hunks, holds_line(n)) {
                None => None,
                Some(hi) => {
                    let h = f.hunks[hi];
                    let idx = first_match(h.lines, numbered(n)).unwrap();
                    let slice = h.lines.subrange(window_start(idx), window_end(idx, h.lines.len() as int));
                    Some(render_snippet(display_path(f), h, slice))
                },
            }
        },
    }
}

/// The snippet for line `n` of `file_path` in the unified diff `diff_text`:
/// `None` for a blank diff or one that `unidiff` rejects.
pub open spec fn diff_snippet(diff_text: Seq<char>, file_path: Seq<char>, n: usize) -> Option<Seq<char>> {
    let t = trim(diff_text);
    if t.len() == 0 {
        None
    } else {
        match unidiff_parse(t) {
            None => None,
            Some(files) => snippet_for_files(files, file_path, n),
        }
    }
}

fn normalize_path_chars(path: &Vec<char>) -> (r: Vec<char>)
    ensures
        r@ == normalize_path(path@),
{
    proof {
        reveal_strlit("b/");
        reveal_strlit("a/");
    }
    if has_prefix(path, &chars_of("b/")) {
        slice_chars(path, 2, path.len())
    } else if has_prefix(path, &chars_of("a/")) {
        slice_chars(path, 2, path.len())
    } else {
        slice_chars(path, 0, path.len())
    }
}

proof fn lemma_basename_split(p: Seq<char>, i: int)
    requires
        0 <= i <= p.len(),
        forall|j: int| i <= j < p.len() ==> p[j] != '/',
    ensures
        basename(p) == basename(p.subrange(0, i)) + p.subrange(i, p.len() as int),
    decreases p.len() - i,
{
    if i < p.len() {
        lemma_basename_split(p.drop_last(), i);
        assert(p.drop_last().subrange(0, i) == p.subrange(0, i));
        assert(p.subrange(i, p.len() as int) == p.drop_last().subrange(i, p.len() - 1).push(
            p.last(),
        ));
    } else {
        assert(p.subrange(0, i) == p);
    }
}

pub(crate) fn basename_chars(path: &Vec<char>) -> (r: Vec<char>)
    ensures
        r@ == basename(path@),
{
    let mut i = path.len();
    while i > 0 && path[i - 1] != '/'
        invariant
            i <= path.len(),
            forall|j: int| i <= j < path.len() ==> path@[j] != '/',
        decreases i,
    {
        i = i - 1;
    }
    proof {
        lemma_basename_split(path@, i as int);
        if i > 0 {
            let q = path@.subrange(0, i as int);
            assert(q.last() == '/');
            assert(basename(q) == Seq::<char>::empty());
        } else {
            assert(path@.subrange(0, 0) == Seq::<char>::empty());
        }
        assert(path@.subrange(i as int, path@.len() as int) == basename(path@));
    }
    slice_chars(path, i, path.len())
}

fn slash_then(p: &Vec<char>) -> (r: Vec<char>)
    ensures
        r@ == seq!['/'] + p@,
{
    let mut r: Vec<char> = Vec::new();
    r.push('/');
    push_chars(&mut r, p);
    r
}

fn paths_match_chars(diff_path: &Vec<char>, anchor: &Vec<char>, anchor_base: &Vec<char>) -> (r:
    bool)
    ensures
        r == paths_match(diff_path@, anchor@, anchor_base@),
{
    chars_equal(diff_path, anchor) || has_suffix(diff_path, &slash_then(anchor)) || has_suffix(
        anchor,
        &slash_then(diff_path),
    ) || chars_equal(&basename_chars(diff_path), anchor_base)
}

fn file_matches_exec(f: &DiffFile, anchor: &Vec<char>, anchor_base: &Vec<char>) -> (r: bool)
    ensures
        r == file_matches(f@, anchor@, anchor_base@),
{
    let new_path = normalize_path_chars(&chars_of(f.target_file.as_str()));
    let old_path = normalize_path_chars(&chars_of(f.source_file.as_str()));
    paths_match_chars(&new_path, anchor, anchor_base) || paths_match_chars(
        &old_path,
        anchor,
        anchor_base,
    )
}

fn line_numbered_exec(l: &DiffLine, n: usize) -> (r: bool)
    ensures
        r == line_numbered(l@, n),
{
    let a = match l.source_line_no {
        Some(v) => v == n,
        None => false,
    };
    let b = match l.target_line_no {
        Some(v) => v == n,
        None => false,
    };
    a || b
}

/// The index of the first line of `h` numbered `n`, if any.
fn line_index_in_hunk(h: &DiffHunk, n: usize) -> (r: Option<usize>)
    ensures
        match r {
            Some(i) => i < h.lines.len() && first_match(h@.lines, numbered(n))
                == Some(i as int),
            None => first_match(h@.lines, numbered(n)) is None,
        },
{
    let ghost p = numbered(n);
    let mut i: usize = 0;
    while i < h.lines.len()
        invariant
            i <= h.lines.len(),
            p == numbered(n),
            forall|j: int| 0 <= j < i ==> !p(#[trigger] h@.lines[j]),
        decreases h.lines.len() - i,
    {
        assert(h@.lines[i as int] == h.lines@[i as int]@);
        if line_numbered_exec(&h.lines[i], n) {
            proof {
                lemma_first_match_at(h@.lines, p, i as int);
            }
            return Some(i);
        }
        i = i + 1;
    }
    proof {
        lemma_first_match_none(h@.lines, p);
    }
    None
}

proof fn lemma_count_bounds(s: Seq<LineView>)
    ensures
        count_source(s) <= s.len(),
        count_target(s) <= s.len(),
    decreases s.len(),
{
    if s.len() > 0 {
        lemma_count_bounds(s.drop_last());
    }
}

/// The snippet text for the window around line `idx` of `h`.
fn render_window(path: &Vec<char>, h: &DiffHunk, idx: usize) -> (r: Vec<char>)
    requires
        idx < h.lines.len(),
    ensures
        r@ == render_snippet(
            path@,
            h@,
            h@.lines.subrange(window_start(idx as int), window_end(idx as int, h.lines.len() as int)),
        ),
{
    let len = h.lines.len();
    let start: usize = if idx >= 4 {
        idx - 4
    } else {
        0
    };
    let end: usize = if len > 5 && idx < len - 5 {
        idx + 5
    } else {
        len
    };
    let ghost sl = h@.lines.subrange(start as int, end as int);
    assert(start as int == window_start(idx as int) && end as int == window_end(idx as int, len as int));
    let mut old_start: Option<usize> = None;
    let mut new_start: Option<usize> = None;
    let mut old_count: usize = 0;
    let mut new_count: usize = 0;
    let mut body: Vec<char> = Vec::new();
    let mut k = start;
    while k < end
        invariant
            start <= k <= end <= len,
            len == h.lines.len(),
            sl == h@.lines.subrange(start as int, end as int),
            old_start == first_source_no(sl.take(k - start)),
            new_start == first_target_no(sl.take(k - start)),
            old_count == count_source(sl.take(k - start)),
            new_count == count_target(sl.take(k - start)),
            body@ == body_text(sl.take(k - start)),
            k - start <= 9,
            end - start <= 9,
        decreases end - k,
    {
        let ghost pre = sl.take(k - start);
        let line = &h.lines[k];
        assert(sl.take(k - start + 1).drop_last() == pre);
        assert(sl.take(k - start + 1).last() == line@);
        proof {
            lemma_count_bounds(pre);
        }
        if line.source_line_no.is_some() {
            if old_start.is_none() {
                old_start = line.source_line_no;
            }
            old_count = old_count + 1;
        }
        if line.target_line_no.is_some() {
            if new_start.is_none() {
                new_start = line.target_line_no;
            }
            new_count = new_count + 1;
        }
        push_str(&mut body, line.line_type.as_str());
        push_str(&mut body, line.value.as_str());
        push_str(&mut body, "\n");
        k = k + 1;
    }
    assert(sl.take(end - start) == sl);
    let old_first = match old_start {
        Some(v) => v,
        None => h.source_start,
    };
    let new_first = match new_start {
        Some(v) => v,
        None => h.target_start,
    };
    let mut out: Vec<char> = Vec::new();
    push_str(&mut out, "diff --git a/");
    push_chars(&mut out, path);
    push_str(&mut out, " b/");
    push_chars(&mut out, path);
    push_str(&mut out, "\n--- a/");
    push_chars(&mut out, path);
    push_str(&mut out, "\n+++ b/");
    push_chars(&mut out, path);
    push_str(&mut out, "\n");
    push_str(&mut out, "@@ -");
    push_decimal(&mut out, old_first);
    push_str(&mut out, ",");
    push_decimal(&mut out, old_count);
    push_str(&mut out, " +");
    push_decimal(&mut out, new_first);
    push_str(&mut out, ",");
    push_decimal(&mut out, new_count);
    push_str(&mut out, " @@");
    if !h.section_header.as_str().is_empty() {
        push_str(&mut out, " ");
        push_str(&mut out, h.section_header.as_str());
    }
    push_str(&mut out, "\n");
    push_chars(&mut out, &body);
    proof {
        let section = if h@.section_header.len() == 0 {
            Seq::<char>::empty()
        } else {
            " "@ + h@.section_header
        };
        assert(out@ == render_snippet(path@, h@, sl));
    }
    out
}

/// A file that matches the anchor but holds no hunk with the line ends the
/// search: no snippet is taken from a later file, even one that holds the
/// line.
pub proof fn lemma_snippet_does_not_fall_through(
    files: Seq<FileView>,
    file_path: Seq<char>,
    n: usize,
    fi: int,
)
    requires
        first_match(
            files,
            matches_anchor(normalize_path(file_path), basename(normalize_path(file_path))),
        ) == Some(fi),
        first_match(files[fi].hunks, holds_line(n)) is None,
    ensures
        snippet_for_files(files, file_path, n) is None,
{
}

/// The lines of a snippet are a window of the hunk around the anchor line:
/// they hold it, with at most four lines before it and four after it, and
/// they stop short of four only at the hunk's ends.
pub proof fn lemma_window_around_anchor(idx: int, len: int)
    requires
        0 <= idx < len,
    ensures
        0 <= window_start(idx) <= idx < window_end(idx, len) <= len,
        idx - window_start(idx) <= 4,
        window_end(idx, len) - idx <= 5,
        window_start(idx) == idx - 4 || window_start(idx) == 0,
        window_end(idx, len) == idx + 5 || window_end(idx, len) == len,
{
}

/// The index of the first hunk of `f` that holds a line numbered `n`, with
/// the index of that line in it.
fn hunk_with_line(f: &DiffFile, n: usize) -> (r: Option<(usize, usize)>)
    ensures
        match r {
            Some((hi, li)) => hi < f.hunks.len() && li < f.hunks@[hi as int].lines.len()
                && first_match(f@.hunks, holds_line(n)) == Some(hi as int) && first_match(
                f@.hunks[hi as int].lines,
                numbered(n),
            ) == Some(li as int),
            None => first_match(f@.hunks, holds_line(n)) is None,
        },
{
    let ghost p = holds_line(n);
    let mut i: usize = 0;
    while i < f.hunks.len()
        invariant
            i <= f.hunks.len(),
            p == holds_line(n),
            forall|j: int| 0 <= j < i ==> !p(#[trigger] f@.hunks[j]),
        decreases f.hunks.len() - i,
    {
        assert(f@.hunks[i as int] == f.hunks@[i as int]@);
        if let Some(li) = line_index_in_hunk(&f.hunks[i], n) {
            proof {
                lemma_first_match_at(f@.hunks, p, i as int);
            }
            return Some((i, li));
        }
        i = i + 1;
    }
    proof {
        lemma_first_match_none(f@.hunks, p);
    }
    None
}

/// The snippet for line `line_number` of `file_path` among the parsed files
/// of a diff.
pub fn snippet_from_files(files: &Vec<DiffFile>, file_path: &str, line_number: u32) -> (r: Option<
    String,
>)
    ensures
        match r {
            Some(s) => snippet_for_files(files_view(files@), file_path@, line_number as usize)
                == Some(s@),
            None => snippet_for_files(files_view(files@), file_path@, line_number as usize) is None,
        },
{
    let n = line_number as usize;
    let anchor = normalize_path_chars(&chars_of(file_path));
    let anchor_base = basename_chars(&anchor);
    let ghost fs = files_view(files@);
    let ghost p = matches_anchor(anchor@, anchor_base@);
    let mut i: usize = 0;
    while i < files.len()
        invariant
            i <= files.len(),
            fs == files_view(files@),
            anchor@ == normalize_path(file_path@),
            anchor_base@ == basename(anchor@),
            n == line_number as usize,
            p == matches_anchor(anchor@, anchor_base@),
            forall|j: int| 0 <= j < i ==> !p(#[trigger] fs[j]),
        decreases files.len() - i,
    {
        let f = &files[i];
        assert(fs[i as int] == f@);
        if file_matches_exec(f, &anchor, &anchor_base) {
            proof {
                lemma_first_match_at(fs, p, i as int);
            }
            let target = chars_of(f.target_file.as_str());
            let path = if chars_equal(&target, &chars_of("/dev/null")) {
                normalize_path_chars(&chars_of(f.source_file.as_str()))
            } else {
                normalize_path_chars(&target)
            };
            return match hunk_with_line(f, n) {
                Some((hi, li)) => {
                    let h = &f.hunks[hi];
                    assert(f@.hunks[hi as int] == h@);
                    let text = render_window(&path, h, li);
                    Some(string_from_chars(&text))
                },
                None => None,
            };
        }
        i = i + 1;
    }
    proof {
        lemma_first_match_none(fs, p);
    }
    None
}

/// The snippet for line `line_number` of `file_path` in the unified diff
/// `diff_text`.
pub fn diff_snippet_for_anchor(diff_text: &str, file_path: &str, line_number: u32) -> (r: Option<
    String,
>)
    requires
        unidiff_reads_safely(trim(diff_text@)),
    ensures
        match r {
            Some(s) => diff_snippet(diff_text@, file_path@, line_number as usize) == Some(s@),
            None => diff_snippet(diff_text@, file_path@, line_number as usize) is None,
        },
{
    let all = chars_of(diff_text);
    let (a, b) = trim_bounds(&all);
    if a == b {
        return None;
    }
    let trimmed_text = string_from_chars(&slice_chars(&all, a, b));
    match parse_patch_set(trimmed_text.as_str()) {
        Some(files) => snippet_from_files(&files, file_path, line_number),
        None => None,
    }
}

/// Whether `diff_snippet_for_anchor` can be asked about `diff_text`: its
/// trimmed text is one that `unidiff` reads without panicking.
pub fn snippet_readable(diff_text: &str) -> (r: bool)
    ensures
        r == unidiff_reads_safely(trim(diff_text@)),
{
    let all = chars_of(diff_text);
    let (a, b) = trim_bounds(&all);
    let t = string_from_chars(&slice_chars(&all, a, b));
    reads_safely(t.as_str())
}

proof fn lemma_first_source_at(s: Seq<LineView>, i: int)
    requires
        0 <= i < s.len(),
        s[i].source_line_no is Some,
        forall|k: int| 0 <= k < i ==> s[k].source_line_no is None,
    ensures
        first_source_no(s) == s[i].source_line_no,
    decreases s.len(),
{
    if i < s.len() - 1 {
        lemma_first_source_at(s.drop_last(), i);
    } else {
        lemma_no_source(s.drop_last());
    }
}

proof fn lemma_no_source(s: Seq<LineView>)
    requires
        forall|k: int| 0 <= k < s.len() ==> s[k].source_line_no is None,
    ensures
        first_source_no(s) is None,
    decreases s.len(),
{
    if s.len() > 0 {
        lemma_no_source(s.drop_last());
    }
}

proof fn lemma_first_target_at(s: Seq<LineView>, i: int)
    requires
        0 <= i < s.len(),
        s[i].target_line_no is Some,
        forall|k: int| 0 <= k < i ==> s[k].target_line_no is None,
    ensures
        first_target_no(s) == s[i].target_line_no,
    decreases s.len(),
{
    if i < s.len() - 1 {
        lemma_first_target_at(s.drop_last(), i);
    } else {
        lemma_no_target(s.drop_last());
    }
}

proof fn lemma_no_target(s: Seq<LineView>)
    requires
        forall|k: int| 0 <= k < s.len() ==> s[k].target_line_no is None,
    ensures
        first_target_no(s) is None,
    decreases s.len(),
{
    if s.len() > 0 {
        lemma_no_target(s.drop_last());
    }
}

/// The file header lines of a snippet of `path`.
pub open spec fn file_header_lines(path: Seq<char>) -> Seq<char> {
    "diff --git a/"@ + path + " b/"@ + path + "\n--- a/"@ + path + "\n+++ b/"@ + path + "\n"@
}

/// A snippet's hunk header numbers the window, not the hunk: right after the
/// file header lines it reads `@@ -K,` and `+L,` where K (L) is the old (new)
/// line number of the first line of the window that has one, whatever line
/// the hunk itself starts at.
pub proof fn lemma_snippet_header_numbers_window(
    path: Seq<char>,
    h: HunkView,
    slice: Seq<LineView>,
    i: int,
    j: int,
)
    requires
        0 <= i < slice.len(),
        slice[i].source_line_no is Some,
        forall|k: int| 0 <= k < i ==> slice[k].source_line_no is None,
        0 <= j < slice.len(),
        slice[j].target_line_no is Some,
        forall|k: int| 0 <= k < j ==> slice[k].target_line_no is None,
    ensures
        ({
            let r = render_snippet(path, h, slice);
            let a = file_header_lines(path).len();
            let hh = "@@ -"@ + decimal(slice[i].source_line_no.unwrap() as nat) + ","@ + decimal(
                count_source(slice),
            ) + " +"@ + decimal(slice[j].target_line_no.unwrap() as nat) + ","@;
            &&& r.len() >= a + hh.len()
            &&& r.subrange(a as int, (a + hh.len()) as int) == hh
        }),
{
    lemma_first_source_at(slice, i);
    lemma_first_target_at(slice, j);
    let r = render_snippet(path, h, slice);
    let hd = file_header_lines(path);
    let hh = "@@ -"@ + decimal(slice[i].source_line_no.unwrap() as nat) + ","@ + decimal(
        count_source(slice),
    ) + " +"@ + decimal(slice[j].target_line_no.unwrap() as nat) + ","@;
    let section = if h.section_header.len() == 0 {
        seq![]
    } else {
        " "@ + h.section_header
    };
    let rest = decimal(count_target(slice)) + " @@"@ + section + "\n"@ + body_text(slice);
    assert(r == hd + hh + rest);
    assert((hd + hh + rest).subrange(hd.len() as int, (hd.len() + hh.len()) as int) == hh);
}


} // verus!
