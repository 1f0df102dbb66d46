//! Character-level text operations over `Seq<char>`, with executable
//! counterparts over `Vec<char>`.
use vstd::prelude::*;

verus! {

/// The Unicode `White_Space` property, which `char::is_whitespace`,
/// `str::trim` and `str::split_whitespace` use.
pub open spec fn is_ws(c: char) -> bool {
    let u = c as u32;
    ||| 0x09 <= u <= 0x0D
    ||| u == 0x20
    ||| u == 0x85
    ||| u == 0xA0
    ||| u == 0x1680
    ||| 0x2000 <= u <= 0x200A
    ||| u == 0x2028
    ||| u == 0x2029
    ||| u == 0x202F
    ||| u == 0x205F
    ||| u == 0x3000
}

pub fn is_whitespace_char(c: char) -> (r: bool)
    ensures
        r == is_ws(c),
{
    let u = c as u32;
    (0x09 <= u && u <= 0x0D) || u == 0x20 || u == 0x85 || u == 0xA0 || u == 0x1680 || (0x2000
        <= u && u <= 0x200A) || u == 0x2028 || u == 0x2029 || u == 0x202F || u == 0x205F || u
        == 0x3000
}

/// `s` with its leading whitespace removed.
pub open spec fn trim_start(s: Seq<char>) -> Seq<char>
    decreases s.len(),
{
    if s.len() > 0 && is_ws(s[0]) {
        trim_start(s.drop_first())
    } else {
        s
    }
}

/// `s` with its trailing whitespace removed.
pub open spec fn trim_end(s: Seq<char>) -> Seq<char>
    decreases s.len(),
{
    if s.len() > 0 && is_ws(s.last()) {
        trim_end(s.drop_last())
    } else {
        s
    }
}

/// `s` with leading and trailing whitespace removed, as `str::trim` does.
pub open spec fn trim(s: Seq<char>) -> Seq<char> {
    trim_end(trim_start(s))
}

pub proof fn lemma_trim_start_skip(s: Seq<char>, a: int)
    requires
        0 <= a <= s.len(),
        forall|i: int| 0 <= i < a ==> is_ws(#[trigger] s[i]),
    ensures
        trim_start(s) == trim_start(s.subrange(a, s.len() as int)),
    decreases a,
{
    if a > 0 {
        assert(is_ws(s[0]));
        assert forall|i: int| 0 <= i < a - 1 implies is_ws(#[trigger] s.drop_first()[i]) by {
            assert(s.drop_first()[i] == s[i + 1]);
        }
        lemma_trim_start_skip(s.drop_first(), a - 1);
        assert(s.drop_first().subrange(a - 1, s.drop_first().len() as int) == s.subrange(
            a,
            s.len() as int,
        ));
    } else {
        assert(s.subrange(0, s.len() as int) == s);
    }
}

pub proof fn lemma_trim_end_skip(s: Seq<char>, b: int)
    requires
        0 <= b <= s.len(),
        forall|i: int| b <= i < s.len() ==> is_ws(#[trigger] s[i]),
    ensures
        trim_end(s) == trim_end(s.subrange(0, b)),
    decreases s.len() - b,
{
    if b < s.len() {
        assert(is_ws(s[s.len() - 1]));
        assert forall|i: int| b <= i < s.len() - 1 implies is_ws(#[trigger] s.drop_last()[i]) by {
            assert(s.drop_last()[i] == s[i]);
        }
        lemma_trim_end_skip(s.drop_last(), b);
        assert(s.drop_last().subrange(0, b) == s.subrange(0, b));
    } else {
        assert(s.subrange(0, b) == s);
    }
}

/// The bounds `(a, b)` of `trim(s)` inside `s`.
pub fn trim_bounds(s: &Vec<char>) -> (r: (usize, usize))
    ensures
        r.0 <= r.1 <= s.len(),
        s@.subrange(r.0 as int, r.1 as int) == trim(s@),
{
    let n = s.len();
    let mut a: usize = 0;
    while a < n && is_whitespace_char(s[a])
        invariant
            a <= n,
            n == s.len(),
            forall|i: int| 0 <= i < a ==> is_ws(#[trigger] s@[i]),
        decreases n - a,
    {
        a = a + 1;
    }
    proof {
        lemma_trim_start_skip(s@, a as int);
    }
    let ghost t = s@.subrange(a as int, n as int);
    assert(trim_start(t) == t) by {
        if t.len() > 0 {
            assert(t[0] == s@[a as int]);
        }
    }
    let mut b: usize = n;
    while b > a && is_whitespace_char(s[b - 1])
        invariant
            a <= b <= n,
            n == s.len(),
            t == s@.subrange(a as int, n as int),
            forall|i: int| b <= i < n ==> is_ws(#[trigger] s@[i]),
        decreases b - a,
    {
        b = b - 1;
    }
    proof {
        let bb = b - a;
        assert forall|i: int| bb <= i < t.len() implies is_ws(#[trigger] t[i]) by {
            assert(t[i] == s@[i + a]);
        }
        lemma_trim_end_skip(t, bb);
        let u = t.subrange(0, bb);
        assert(u == s@.subrange(a as int, b as int));
        if u.len() > 0 {
            assert(u.last() == s@[b - 1]);
        }
        assert(trim_end(u) == u);
    }
    (a, b)
}

/// The characters of `s`.
pub fn chars_of(s: &str) -> (r: Vec<char>)
    ensures
        r@ == s@,
{
    let mut r: Vec<char> = Vec::new();
    for c in it: s.chars()
        invariant
            r@ == it.seq().take(it.index() as int),
            it.seq() == s@,
    {
        r.push(c);
        proof {
            assert(it.seq().take(it.index() + 1) == it.seq().take(it.index() as int).push(c));
        }
    }
    r
}

/// `v` as a `String`: `Iterator::collect::<String>` over the characters,
/// which keeps them as they are.
#[verifier::external_body]
pub(crate) fn string_from_chars(v: &Vec<char>) -> (r: String)
    ensures
        r@ == v@,
{
    v.iter().collect()
}

/// What `str::to_uppercase` makes of a text.
pub uninterp spec fn upper_case(s: Seq<char>) -> Seq<char>;

/// `str::to_uppercase`: the text with each character replaced by its
/// Unicode upper case (which may be several characters); named by
/// `upper_case`, a function of the text alone.
#[verifier::external_body]
pub(crate) fn to_upper(s: &str) -> (r: String)
    ensures
        r@ == upper_case(s@),
{
    s.to_uppercase()
}

/// `s[i]` is the first occurrence of `c` in `s`.
pub open spec fn is_first_index(s: Seq<char>, c: char, i: int) -> bool {
    &&& 0 <= i < s.len()
    &&& s[i] == c
    &&& forall|j: int| 0 <= j < i ==> s[j] != c
}

/// The index of the first occurrence of `c` in `s`, if any.
pub open spec fn find_char(s: Seq<char>, c: char) -> Option<int> {
    if exists|i: int| is_first_index(s, c, i) {
        Some(choose|i: int| is_first_index(s, c, i))
    } else {
        None
    }
}

/// `s` split around the first occurrence of `c`, as `str::split_once` does.
pub open spec fn split_once(s: Seq<char>, c: char) -> Option<(Seq<char>, Seq<char>)> {
    match find_char(s, c) {
        Some(k) => Some((s.subrange(0, k), s.subrange(k + 1, s.len() as int))),
        None => None,
    }
}

pub open spec fn starts_with(s: Seq<char>, p: Seq<char>) -> bool {
    p.len() <= s.len() && s.subrange(0, p.len() as int) == p
}

pub open spec fn ends_with(s: Seq<char>, p: Seq<char>) -> bool {
    p.len() <= s.len() && s.subrange(s.len() - p.len(), s.len() as int) == p
}

/// `s` without the prefix `p`, as `str::strip_prefix` does.
pub open spec fn strip_prefix(s: Seq<char>, p: Seq<char>) -> Option<Seq<char>> {
    if starts_with(s, p) {
        Some(s.subrange(p.len() as int, s.len() as int))
    } else {
        None
    }
}

/// `s` without the suffix `p`, as `str::strip_suffix` does.
pub open spec fn strip_suffix(s: Seq<char>, p: Seq<char>) -> Option<Seq<char>> {
    if ends_with(s, p) {
        Some(s.subrange(0, s.len() - p.len()))
    } else {
        None
    }
}

/// The index of the first occurrence of `c` in `s`, if any.
pub fn find_char_index(s: &Vec<char>, c: char) -> (r: Option<usize>)
    ensures
        match r {
            Some(i) => i < s.len() && find_char(s@, c) == Some(i as int),
            None => find_char(s@, c) is None,
        },
{
    let mut i: usize = 0;
    while i < s.len()
        invariant
            i <= s.len(),
            forall|j: int| 0 <= j < i ==> s@[j] != c,
        decreases s.len() - i,
    {
        if s[i] == c {
            proof {
                assert(is_first_index(s@, c, i as int));
                let k = choose|k: int| is_first_index(s@, c, k);
                assert(k == i as int);
            }
            return Some(i);
        }
        i = i + 1;
    }
    None
}

/// `s@.subrange(a, b)` as a new vector.
pub fn slice_chars(s: &Vec<char>, a: usize, b: usize) -> (r: Vec<char>)
    requires
        a <= b <= s.len(),
    ensures
        r@ == s@.subrange(a as int, b as int),
{
    let mut r: Vec<char> = Vec::new();
    let mut i = a;
    while i < b
        invariant
            a <= i <= b <= s.len(),
            r@ == s@.subrange(a as int, i as int),
        decreases b - i,
    {
        r.push(s[i]);
        i = i + 1;
    }
    r
}

/// `trim(s)` as a new vector.
pub fn trimmed(s: &Vec<char>) -> (r: Vec<char>)
    ensures
        r@ == trim(s@),
{
    let (a, b) = trim_bounds(s);
    slice_chars(s, a, b)
}

pub fn chars_equal(a: &Vec<char>, b: &Vec<char>) -> (r: bool)
    ensures
        r == (a@ == b@),
{
    if a.len() != b.len() {
        return false;
    }
    let mut i: usize = 0;
    while i < a.len()
        invariant
            a.len() == b.len(),
            i <= a.len(),
            forall|j: int| 0 <= j < i ==> a@[j] == b@[j],
        decreases a.len() - i,
    {
        if a[i] != b[i] {
            return false;
        }
        i = i + 1;
    }
    assert(a@ == b@);
    true
}

pub fn has_prefix(s: &Vec<char>, p: &Vec<char>) -> (r: bool)
    ensures
        r == starts_with(s@, p@),
{
    if p.len() > s.len() {
        return false;
    }
    let mut i: usize = 0;
    while i < p.len()
        invariant
            p.len() <= s.len(),
            i <= p.len(),
            forall|j: int| 0 <= j < i ==> s@[j] == p@[j],
        decreases p.len() - i,
    {
        if s[i] != p[i] {
            assert(s@.subrange(0, p.len() as int)[i as int] != p@[i as int]);
            return false;
        }
        i = i + 1;
    }
    assert(s@.subrange(0, p.len() as int) == p@);
    true
}

pub fn has_suffix(s: &Vec<char>, p: &Vec<char>) -> (r: bool)
    ensures
        r == ends_with(s@, p@),
{
    if p.len() > s.len() {
        return false;
    }
    let off = s.len() - p.len();
    let mut i: usize = 0;
    while i < p.len()
        invariant
            p.len() <= s.len(),
            off == s.len() - p.len(),
            i <= p.len(),
            forall|j: int| 0 <= j < i ==> s@[off + j] == p@[j],
        decreases p.len() - i,
    {
        if s[off + i] != p[i] {
            assert(s@.subrange(off as int, s.len() as int)[i as int] != p@[i as int]);
            return false;
        }
        i = i + 1;
    }
    assert(s@.subrange(off as int, s.len() as int) == p@);
    true
}

pub proof fn lemma_find_char_bounds(s: Seq<char>, c: char)
    ensures
        match find_char(s, c) {
            Some(k) => is_first_index(s, c, k),
            None => forall|i: int| 0 <= i < s.len() ==> s[i] != c,
        },
{
    if find_char(s, c) is None {
        assert forall|i: int| 0 <= i < s.len() implies s[i] != c by {
            if s[i] == c {
                lemma_first_below(s, c, i);
            }
        }
    }
}

/// Where `c` occurs at or before `i`, there is a first occurrence.
pub proof fn lemma_first_below(s: Seq<char>, c: char, i: int)
    requires
        0 <= i < s.len(),
        s[i] == c,
    ensures
        exists|k: int| is_first_index(s, c, k),
    decreases i,
{
    if exists|j: int| 0 <= j < i && s[j] == c {
        let j = choose|j: int| 0 <= j < i && s[j] == c;
        lemma_first_below(s, c, j);
    } else {
        assert(is_first_index(s, c, i));
    }
}

/// `l` without one trailing carriage return.
pub open spec fn strip_cr(l: Seq<char>) -> Seq<char> {
    if l.len() > 0 && l.last() == '\r' {
        l.drop_last()
    } else {
        l
    }
}

/// The lines of `s`, as `str::lines` gives them: split at `\n`, each line
/// without a `\r` just before its `\n`, and no empty line after a final `\n`.
pub open spec fn lines_of(s: Seq<char>) -> Seq<Seq<char>>
    decreases s.len(),
{
    if s.len() == 0 {
        seq![]
    } else {
        match find_char(s, '\n') {
            Some(k) => {
                proof {
                    lemma_find_char_bounds(s, '\n');
                }
                seq![strip_cr(s.subrange(0, k))] + lines_of(s.subrange(k + 1, s.len() as int))
            },
            None => seq![s],
        }
    }
}

/// The decimal digit for `d < 10`.
pub open spec fn digit_char(d: int) -> char {
    (48 + d) as char
}

/// The decimal representation of `n`, as `Display` writes integers.
pub open spec fn decimal(n: nat) -> Seq<char>
    decreases n,
{
    if n < 10 {
        seq![digit_char(n as int)]
    } else {
        decimal(n / 10).push(digit_char((n % 10) as int))
    }
}

fn digit(d: usize) -> (c: char)
    requires
        d < 10,
    ensures
        c == digit_char(d as int),
{
    let cs = ['0', '1', '2', '3', '4', '5', '6', '7', '8', '9'];
    cs[d]
}

/// Appends the decimal representation of `n`.
pub fn push_decimal(out: &mut Vec<char>, n: usize)
    ensures
        final(out)@ == old(out)@ + decimal(n as nat),
    decreases n,
{
    if n >= 10 {
        push_decimal(out, n / 10);
    }
    out.push(digit(n % 10));
    proof {
        if n >= 10 {
            assert(old(out)@ + decimal(n as nat) == old(out)@ + decimal((n / 10) as nat) + seq![digit_char((n % 10) as int)]);
        }
    }
}

/// Appends the characters of `s`.
pub fn push_str(out: &mut Vec<char>, s: &str)
    ensures
        final(out)@ == old(out)@ + s@,
{
    let cs = chars_of(s);
    push_chars(out, &cs);
}

/// Appends the characters of `v`.
pub fn push_chars(out: &mut Vec<char>, v: &Vec<char>)
    ensures
        final(out)@ == old(out)@ + v@,
{
    let ghost start = out@;
    let mut i: usize = 0;
    while i < v.len()
        invariant
            i <= v.len(),
            out@ == start + v@.subrange(0, i as int),
        decreases v.len() - i,
    {
        out.push(v[i]);
        i = i + 1;
        assert(v@.subrange(0, i as int) == v@.subrange(0, i - 1).push(v@[i - 1]));
    }
    assert(v@.subrange(0, v.len() as int) == v@);
}

/// `a == b` on strings, by their characters.
pub fn str_eq(a: &str, b: &str) -> (r: bool)
    ensures
        r == (a@ == b@),
{
    chars_equal(&chars_of(a), &chars_of(b))
}

/// The index of the first whitespace character of `s`, or its length.
pub open spec fn word_end(s: Seq<char>) -> int
    decreases s.len(),
{
    if s.len() == 0 || is_ws(s[0]) {
        0
    } else {
        1 + word_end(s.drop_first())
    }
}

pub proof fn lemma_word_end_bounds(s: Seq<char>)
    ensures
        0 <= word_end(s) <= s.len(),
        forall|i: int| 0 <= i < word_end(s) ==> !is_ws(#[trigger] s[i]),
        word_end(s) < s.len() ==> is_ws(s[word_end(s)]),
    decreases s.len(),
{
    if s.len() > 0 && !is_ws(s[0]) {
        lemma_word_end_bounds(s.drop_first());
        assert forall|i: int| 0 <= i < word_end(s) implies !is_ws(#[trigger] s[i]) by {
            if i > 0 {
                assert(s[i] == s.drop_first()[i - 1]);
            }
        }
    }
}

pub proof fn lemma_trim_start_len(s: Seq<char>)
    ensures
        trim_start(s).len() <= s.len(),
        trim_start(s).len() > 0 ==> !is_ws(trim_start(s)[0]),
    decreases s.len(),
{
    if s.len() > 0 && is_ws(s[0]) {
        lemma_trim_start_len(s.drop_first());
    }
}

/// The whitespace-separated words of `s`, as `str::split_whitespace` gives
/// them.
pub open spec fn words(s: Seq<char>) -> Seq<Seq<char>>
    decreases s.len(),
{
    let t = trim_start(s);
    if t.len() == 0 {
        seq![]
    } else {
        proof {
            lemma_trim_start_len(s);
            lemma_word_end_bounds(t);
        }
        let k = word_end(t);
        seq![t.subrange(0, k)] + words(t.subrange(k, t.len() as int))
    }
}

proof fn lemma_word_end_at(s: Seq<char>, k: int)
    requires
        0 <= k <= s.len(),
        forall|j: int| 0 <= j < k ==> !is_ws(#[trigger] s[j]),
        k == s.len() || is_ws(s[k]),
    ensures
        word_end(s) == k,
    decreases k,
{
    if k > 0 {
        assert(!is_ws(s[0]));
        assert forall|j: int| 0 <= j < k - 1 implies !is_ws(#[trigger] s.drop_first()[j]) by {
            assert(s.drop_first()[j] == s[j + 1]);
        }
        lemma_word_end_at(s.drop_first(), k - 1);
    }
}

pub open spec fn views_of(v: Seq<Vec<char>>) -> Seq<Seq<char>> {
    v.map_values(|w: Vec<char>| w@)
}

/// The whitespace-separated words of `s`.
pub fn split_words(s: &Vec<char>) -> (r: Vec<Vec<char>>)
    ensures
        views_of(r@) == words(s@),
{
    let n = s.len();
    let mut out: Vec<Vec<char>> = Vec::new();
    let mut i: usize = 0;
    assert(s@.subrange(0, n as int) == s@);
    assert(views_of(out@) + words(s@) == words(s@));
    while i < n
        invariant
            i <= n,
            n == s.len(),
            words(s@) == views_of(out@) + words(s@.subrange(i as int, n as int)),
        decreases n - i,
    {
        let ghost rest = s@.subrange(i as int, n as int);
        let mut a = i;
        while a < n && is_whitespace_char(s[a])
            invariant
                i <= a <= n,
                n == s.len(),
                forall|j: int| i <= j < a ==> is_ws(#[trigger] s@[j]),
            decreases n - a,
        {
            a = a + 1;
        }
        proof {
            assert forall|j: int| 0 <= j < a - i implies is_ws(#[trigger] rest[j]) by {
                assert(rest[j] == s@[i + j]);
            }
            lemma_trim_start_skip(rest, (a - i) as int);
            assert(rest.subrange((a - i) as int, rest.len() as int) == s@.subrange(a as int, n as int));
        }
        let ghost t = s@.subrange(a as int, n as int);
        assert(trim_start(t) == t) by {
            if t.len() > 0 {
                assert(t[0] == s@[a as int]);
            }
        }
        if a == n {
            assert(words(rest) == Seq::<Seq<char>>::empty());
            assert(views_of(out@) + words(rest) == views_of(out@));
            assert(s@.subrange(n as int, n as int) == Seq::<char>::empty());
            assert(words(Seq::<char>::empty()) == Seq::<Seq<char>>::empty());
            i = n;
        } else {
            let mut b = a;
            while b < n && !is_whitespace_char(s[b])
                invariant
                    a <= b <= n,
                    n == s.len(),
                    forall|j: int| a <= j < b ==> !is_ws(#[trigger] s@[j]),
                decreases n - b,
            {
                b = b + 1;
            }
            proof {
                assert forall|j: int| 0 <= j < b - a implies !is_ws(#[trigger] t[j]) by {
                    assert(t[j] == s@[a + j]);
                }
                if b < n {
                    assert(t[(b - a) as int] == s@[b as int]);
                }
                lemma_word_end_at(t, (b - a) as int);
                assert(t.subrange(0, (b - a) as int) == s@.subrange(a as int, b as int));
                assert(t.subrange((b - a) as int, t.len() as int) == s@.subrange(b as int, n as int));
            }
            let w = slice_chars(s, a, b);
            let ghost before = out@;
            out.push(w);
            proof {
                assert(views_of(out@) == views_of(before).push(w@));
                assert(words(rest) == seq![w@] + words(s@.subrange(b as int, n as int)));
                assert(views_of(before) + words(rest) == views_of(out@) + words(s@.subrange(b as int, n as int)));
            }
            i = b;
        }
    }
    proof {
        assert(s@.subrange(n as int, n as int) == Seq::<char>::empty());
        assert(trim_start(Seq::<char>::empty()) == Seq::<char>::empty());
        assert(words(Seq::<char>::empty()) == Seq::<Seq<char>>::empty());
        assert(views_of(out@) + Seq::<Seq<char>>::empty() == views_of(out@));
    }
    out
}

/// `strip_cr(s)` as a new vector.
fn strip_cr_chars(s: Vec<char>) -> (r: Vec<char>)
    ensures
        r@ == strip_cr(s@),
{
    let mut s = s;
    if s.len() > 0 && s[s.len() - 1] == '\r' {
        s.pop();
    }
    s
}

/// The lines of `s`, as `str::lines` gives them.
pub fn split_lines(s: &Vec<char>) -> (r: Vec<Vec<char>>)
    ensures
        views_of(r@) == lines_of(s@),
{
    let n = s.len();
    let mut out: Vec<Vec<char>> = Vec::new();
    let mut i: usize = 0;
    assert(s@.subrange(0, n as int) == s@);
    assert(views_of(out@) + lines_of(s@) == lines_of(s@));
    while i < n
        invariant
            i <= n,
            n == s.len(),
            lines_of(s@) == views_of(out@) + lines_of(s@.subrange(i as int, n as int)),
        decreases n - i,
    {
        let ghost rest = s@.subrange(i as int, n as int);
        let mut j = i;
        while j < n && s[j] != '\n'
            invariant
                i <= j <= n,
                n == s.len(),
                forall|m: int| i <= m < j ==> s@[m] != '\n',
            decreases n - j,
        {
            j = j + 1;
        }
        let ghost before = out@;
        if j < n {
            proof {
                assert(is_first_index(rest, '\n', (j - i) as int)) by {
                    assert forall|m: int| 0 <= m < j - i implies rest[m] != '\n' by {
                        assert(rest[m] == s@[i + m]);
                    }
                }
                let k = choose|k: int| is_first_index(rest, '\n', k);
                assert(k == (j - i) as int);
                assert(rest.subrange(0, (j - i) as int) == s@.subrange(i as int, j as int));
                assert(rest.subrange((j - i) + 1, rest.len() as int) == s@.subrange(j + 1, n as int));
            }
            let piece = strip_cr_chars(slice_chars(s, i, j));
            out.push(piece);
            proof {
                assert(views_of(out@) == views_of(before).push(piece@));
                assert(views_of(before) + lines_of(rest) == views_of(out@) + lines_of(s@.subrange(j + 1, n as int)));
            }
            i = j + 1;
        } else {
            proof {
                assert forall|m: int| 0 <= m < rest.len() implies rest[m] != '\n' by {
                    assert(rest[m] == s@[i + m]);
                }
                lemma_find_char_bounds(rest, '\n');
                if find_char(rest, '\n') is Some {
                    let k = find_char(rest, '\n').unwrap();
                    assert(rest[k] == '\n');
                }
            }
            let piece = slice_chars(s, i, n);
            out.push(piece);
            proof {
                assert(views_of(out@) == views_of(before).push(piece@));
                assert(s@.subrange(n as int, n as int) == Seq::<char>::empty());
                assert(views_of(out@) + lines_of(Seq::<char>::empty()) == views_of(out@));
            }
            i = n;
        }
    }
    proof {
        assert(s@.subrange(n as int, n as int) == Seq::<char>::empty());
        assert(views_of(out@) + lines_of(Seq::<char>::empty()) == views_of(out@));
    }
    out
}

} // verus!
