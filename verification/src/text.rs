//! Character-level scanning primitives shared by the parser: whitespace
//! classification, first-occurrence searches for a character, a CRLF pair and
//! a blank-line (double CRLF) separator, and whitespace trimming. Each
//! executable function is proved against a recursive specification over the
//! buffer's view.

use vstd::prelude::*;

verus! {

/// Whitespace as the parser understands it: the ASCII whitespace characters.
pub open spec fn is_ws(c: char) -> bool {
    c == ' ' || c == '\t' || c == '\n' || c == '\u{000c}' || c == '\r'
}

/// Index of the first occurrence of `c` in `s` at or after `from`.
pub open spec fn find_char_from(s: Seq<char>, c: char, from: int) -> Option<int>
    decreases s.len() - from,
{
    if from >= s.len() {
        None
    } else if s[from] == c {
        Some(from)
    } else {
        find_char_from(s, c, from + 1)
    }
}

/// A CRLF pair stands at index `i` of `s`.
pub open spec fn is_crlf_at(s: Seq<char>, i: int) -> bool {
    0 <= i && i + 2 <= s.len() && s[i] == '\r' && s[i + 1] == '\n'
}

/// A blank-line separator (two CRLF pairs in a row) stands at index `i` of `s`.
pub open spec fn is_2crlf_at(s: Seq<char>, i: int) -> bool {
    0 <= i && i + 4 <= s.len() && s[i] == '\r' && s[i + 1] == '\n' && s[i + 2] == '\r' && s[i + 3]
        == '\n'
}

/// Index of the first CRLF pair in `s` at or after `from`.
pub open spec fn find_crlf_from(s: Seq<char>, from: int) -> Option<int>
    decreases s.len() - from,
{
    if from + 2 > s.len() {
        None
    } else if s[from] == '\r' && s[from + 1] == '\n' {
        Some(from)
    } else {
        find_crlf_from(s, from + 1)
    }
}

/// Index of the first blank-line separator in `s` at or after `from`.
pub open spec fn find_2crlf_from(s: Seq<char>, from: int) -> Option<int>
    decreases s.len() - from,
{
    if from + 4 > s.len() {
        None
    } else if s[from] == '\r' && s[from + 1] == '\n' && s[from + 2] == '\r' && s[from + 3] == '\n' {
        Some(from)
    } else {
        find_2crlf_from(s, from + 1)
    }
}

/// Index of the first non-whitespace character at or after `i`, or `s.len()`.
pub open spec fn ltrim_idx(s: Seq<char>, i: int) -> int
    decreases s.len() - i,
{
    if i >= s.len() || !is_ws(s[i]) {
        i
    } else {
        ltrim_idx(s, i + 1)
    }
}

/// Index just past the last non-whitespace character before `j`, or `0`.
pub open spec fn rtrim_idx(s: Seq<char>, j: int) -> int
    decreases j,
{
    if j <= 0 || !is_ws(s[j - 1]) {
        j
    } else {
        rtrim_idx(s, j - 1)
    }
}

/// `s` with leading and trailing whitespace removed.
pub open spec fn trim_seq(s: Seq<char>) -> Seq<char> {
    let a = ltrim_idx(s, 0);
    let b = rtrim_idx(s, s.len() as int);
    if a <= b {
        s.subrange(a, b)
    } else {
        Seq::empty()
    }
}

/// Everything before the left trim index is whitespace, and the character at
/// it, if any, is not.
pub proof fn lemma_ltrim_chars(s: Seq<char>, from: int)
    requires
        0 <= from <= s.len(),
    ensures
        from <= ltrim_idx(s, from) <= s.len(),
        forall|j: int| from <= j < ltrim_idx(s, from) ==> is_ws(s[j]),
        ltrim_idx(s, from) < s.len() ==> !is_ws(s[ltrim_idx(s, from)]),
    decreases s.len() - from,
{
    if from < s.len() && is_ws(s[from]) {
        lemma_ltrim_chars(s, from + 1);
    }
}

/// Everything from the right trim index on is whitespace, and the character
/// just before it, if any, is not.
pub proof fn lemma_rtrim_chars(s: Seq<char>, j: int)
    requires
        0 <= j <= s.len(),
    ensures
        0 <= rtrim_idx(s, j) <= j,
        forall|k: int| rtrim_idx(s, j) <= k < j ==> is_ws(s[k]),
        rtrim_idx(s, j) > 0 ==> !is_ws(s[rtrim_idx(s, j) - 1]),
    decreases j,
{
    if j > 0 && is_ws(s[j - 1]) {
        lemma_rtrim_chars(s, j - 1);
    }
}

/// Scanning from the start of an all-whitespace region lands where scanning
/// from its end does.
proof fn lemma_ltrim_skip(s: Seq<char>, k: int)
    requires
        0 <= k <= s.len(),
        forall|i: int| 0 <= i < k ==> is_ws(s[i]),
    ensures
        ltrim_idx(s, 0) == ltrim_idx(s, k),
    decreases k,
{
    if k > 0 {
        lemma_ltrim_skip_from(s, 0, k);
    }
}

proof fn lemma_ltrim_skip_from(s: Seq<char>, from: int, k: int)
    requires
        0 <= from <= k <= s.len(),
        forall|i: int| from <= i < k ==> is_ws(s[i]),
    ensures
        ltrim_idx(s, from) == ltrim_idx(s, k),
    decreases k - from,
{
    if from < k {
        lemma_ltrim_skip_from(s, from + 1, k);
    }
}

proof fn lemma_rtrim_skip_from(s: Seq<char>, k: int, j: int)
    requires
        0 <= k <= j <= s.len(),
        forall|i: int| k <= i < j ==> is_ws(s[i]),
    ensures
        rtrim_idx(s, j) == rtrim_idx(s, k),
    decreases j - k,
{
    if k < j {
        lemma_rtrim_skip_from(s, k, j - 1);
    }
}

/// Left-trimming a region of `t` that mirrors `s` mirrors left-trimming `s`,
/// as long as the trim stops inside the region.
proof fn lemma_ltrim_offset(t: Seq<char>, s: Seq<char>, off: int, j: int)
    requires
        0 <= off,
        0 <= j <= s.len(),
        off + s.len() <= t.len(),
        forall|i: int| 0 <= i < s.len() ==> t[off + i] == s[i],
        ltrim_idx(s, j) < s.len(),
    ensures
        ltrim_idx(t, off + j) == off + ltrim_idx(s, j),
    decreases s.len() - j,
{
    if j < s.len() && is_ws(s[j]) {
        lemma_ltrim_offset(t, s, off, j + 1);
    }
}

/// Right-trimming a region of `t` that mirrors `s` mirrors right-trimming
/// `s`, as long as the trim stops inside the region.
proof fn lemma_rtrim_offset(t: Seq<char>, s: Seq<char>, off: int, j: int)
    requires
        0 <= off,
        0 <= j <= s.len(),
        off + s.len() <= t.len(),
        forall|i: int| 0 <= i < s.len() ==> t[off + i] == s[i],
        rtrim_idx(s, j) > 0,
    ensures
        rtrim_idx(t, off + j) == off + rtrim_idx(s, j),
    decreases j,
{
    if j > 0 && is_ws(s[j - 1]) {
        lemma_rtrim_offset(t, s, off, j - 1);
    }
}

/// Surrounding whitespace never reaches a trimmed value: trimming `s` with
/// any whitespace padding around it yields exactly the trim of `s`. This is
/// what makes header parsing insensitive to whitespace around names and
/// values.
pub proof fn lemma_trim_ws_padding(pre: Seq<char>, s: Seq<char>, post: Seq<char>)
    requires
        forall|i: int| 0 <= i < pre.len() ==> is_ws(pre[i]),
        forall|i: int| 0 <= i < post.len() ==> is_ws(post[i]),
    ensures
        trim_seq(pre + s + post) == trim_seq(s),
{
    let t = pre + s + post;
    assert(forall|i: int| 0 <= i < s.len() ==> t[pre.len() + i] == s[i]);
    lemma_ltrim_chars(s, 0);
    lemma_rtrim_chars(s, s.len() as int);
    let a = ltrim_idx(s, 0);
    let b = rtrim_idx(s, s.len() as int);
    lemma_ltrim_skip(t, pre.len() as int);
    lemma_rtrim_skip_from(t, t.len() - post.len(), t.len() as int);
    if a == s.len() {
        // `s` is all whitespace, so the padded text is too: both trims are
        // empty.
        assert(forall|i: int| 0 <= i < t.len() ==> is_ws(t[i]));
        lemma_ltrim_skip_from(t, pre.len() as int, t.len() as int);
        lemma_rtrim_skip_from(t, 0, t.len() - post.len());
        assert(ltrim_idx(t, 0) == t.len());
        assert(rtrim_idx(t, t.len() as int) == 0);
        if t.len() == 0 {
            assert(trim_seq(t) =~= Seq::<char>::empty());
        }
        if b == 0 && s.len() > 0 {
            assert(trim_seq(s) =~= Seq::<char>::empty());
        } else if s.len() > 0 {
            assert(is_ws(s[b - 1]) == false);
            assert(false);
        }
        assert(trim_seq(t) =~= trim_seq(s));
    } else {
        // `s` holds a character that is not whitespace, so both trims stop
        // inside the mirrored region.
        lemma_ltrim_offset(t, s, pre.len() as int, 0);
        if b == 0 {
            assert(is_ws(s[a]));
            assert(false);
        }
        lemma_rtrim_offset(t, s, pre.len() as int, s.len() as int);
        assert(ltrim_idx(t, 0) == pre.len() + a);
        assert(rtrim_idx(t, t.len() as int) == pre.len() + b);
        if b <= a {
            assert(is_ws(s[a]));
            assert(false);
        }
        assert(trim_seq(t) =~= trim_seq(s));
    }
}

/// Whether `c` counts as whitespace.
pub fn ws_char(c: char) -> (r: bool)
    ensures
        r == is_ws(c),
{
    c == ' ' || c == '\t' || c == '\n' || c == '\u{000c}' || c == '\r'
}

/// First occurrence of `c` in `s` at or after `from`.
pub fn find_char_at(s: &str, c: char, from: usize) -> (r: Option<usize>)
    ensures
        find_char_from(s@, c, from as int) == (match r {
            Some(u) => Some(u as int),
            None => None,
        }),
        r matches Some(u) ==> from <= u < s@.len(),
{
    let n = s.unicode_len();
    if from > n {
        return None;
    }
    let mut i = from;
    while i < n
        invariant
            from <= i <= n,
            n == s@.len(),
            find_char_from(s@, c, from as int) == find_char_from(s@, c, i as int),
        decreases n - i,
    {
        if s.get_char(i) == c {
            return Some(i);
        }
        i = i + 1;
    }
    None
}

/// First CRLF pair in `s` at or after `from`.
pub fn find_crlf_at(s: &str, from: usize) -> (r: Option<usize>)
    ensures
        find_crlf_from(s@, from as int) == (match r {
            Some(u) => Some(u as int),
            None => None,
        }),
        r matches Some(u) ==> from <= u && u + 2 <= s@.len(),
{
    let n = s.unicode_len();
    if n < 2 || from > n - 2 {
        return None;
    }
    let mut i = from;
    while i <= n - 2
        invariant
            from <= i <= n,
            2 <= n == s@.len(),
            find_crlf_from(s@, from as int) == find_crlf_from(s@, i as int),
        decreases n - i,
    {
        if s.get_char(i) == '\r' && s.get_char(i + 1) == '\n' {
            return Some(i);
        }
        i = i + 1;
    }
    None
}

/// First blank-line separator in `s` at or after `from`.
pub fn find_2crlf_at(s: &str, from: usize) -> (r: Option<usize>)
    ensures
        find_2crlf_from(s@, from as int) == (match r {
            Some(u) => Some(u as int),
            None => None,
        }),
        r matches Some(u) ==> from <= u && u + 4 <= s@.len(),
{
    let n = s.unicode_len();
    if n < 4 || from > n - 4 {
        return None;
    }
    let mut i = from;
    while i <= n - 4
        invariant
            from <= i <= n,
            4 <= n == s@.len(),
            find_2crlf_from(s@, from as int) == find_2crlf_from(s@, i as int),
        decreases n - i,
    {
        if s.get_char(i) == '\r' && s.get_char(i + 1) == '\n' && s.get_char(i + 2) == '\r'
            && s.get_char(i + 3) == '\n' {
            return Some(i);
        }
        i = i + 1;
    }
    None
}

/// `find_crlf_from` returns the first CRLF pair at or after `from`.
pub proof fn lemma_find_crlf_first(s: Seq<char>, from: int)
    requires
        0 <= from,
    ensures
        match find_crlf_from(s, from) {
            Some(i) => from <= i && i + 2 <= s.len() && is_crlf_at(s, i) && (forall|j: int|
                from <= j < i ==> !is_crlf_at(s, j)),
            None => forall|j: int| from <= j ==> !is_crlf_at(s, j),
        },
    decreases s.len() - from,
{
    if from + 2 <= s.len() && !(s[from] == '\r' && s[from + 1] == '\n') {
        lemma_find_crlf_first(s, from + 1);
    }
}

/// `s` with leading and trailing whitespace removed.
pub fn trim_str<'a>(s: &'a str) -> (r: &'a str)
    ensures
        r@ == trim_seq(s@),
{
    let n = s.unicode_len();
    let mut a: usize = 0;
    while a < n && ws_char(s.get_char(a))
        invariant
            0 <= a <= n,
            n == s@.len(),
            ltrim_idx(s@, 0) == ltrim_idx(s@, a as int),
        decreases n - a,
    {
        a = a + 1;
    }
    if a == n {
        let r = s.substring_char(0, 0);
        proof {
            assert(ltrim_idx(s@, 0) == n);
            lemma_ltrim_chars(s@, 0);
            lemma_rtrim_chars(s@, s@.len() as int);
            assert(r@ =~= trim_seq(s@));
        }
        return r;
    }
    let mut b: usize = n;
    while b > a && ws_char(s.get_char(b - 1))
        invariant
            a < b <= n,
            n == s@.len(),
            a < n,
            !is_ws(s@[a as int]),
            ltrim_idx(s@, 0) == a as int,
            rtrim_idx(s@, n as int) == rtrim_idx(s@, b as int),
        decreases b,
    {
        b = b - 1;
    }
    proof {
        assert(rtrim_idx(s@, b as int) == b as int);
    }
    let r = s.substring_char(a, b);
    proof {
        assert(r@ =~= trim_seq(s@));
    }
    r
}

/// Whether two string slices hold the same characters.
pub fn str_eq(a: &str, b: &str) -> (r: bool)
    ensures
        r == (a@ == b@),
{
    let n = a.unicode_len();
    let m = b.unicode_len();
    if n != m {
        return false;
    }
    let mut i: usize = 0;
    while i < n
        invariant
            0 <= i <= n,
            n == a@.len(),
            n == b@.len(),
            forall|j: int| 0 <= j < i ==> a@[j] == b@[j],
        decreases n - i,
    {
        if a.get_char(i) != b.get_char(i) {
            return false;
        }
        i = i + 1;
    }
    proof {
        assert(a@ =~= b@);
    }
    true
}

} // verus!
