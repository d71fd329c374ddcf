//! Verified utilities over `&str` / `String`, used by the config-line parser
//! and the path primitives. All contracts are stated over the `Seq<char>`
//! views of the strings involved.

use vstd::prelude::*;
use vstd::string::StrSliceExecFns;
use vstd::string::StringExecFns;

verus! {

/// A character with the Unicode `White_Space` property; the class that both
/// `str::trim` and `str::split_whitespace` split on.
pub open spec fn is_ws_char(c: char) -> bool {
    let u = c as u32;
    (9 <= u <= 13) || u == 0x20 || u == 0x85 || u == 0xA0 || u == 0x1680 || (0x2000 <= u
        <= 0x200A) || u == 0x2028 || u == 0x2029 || u == 0x202F || u == 0x205F || u == 0x3000
}

/// Runtime check for [`is_ws_char`].
pub fn ws_char(c: char) -> (r: bool)
    ensures
        r == is_ws_char(c),
{
    let u = c as u32;
    (9 <= u && u <= 13) || u == 0x20 || u == 0x85 || u == 0xA0 || u == 0x1680 || (0x2000 <= u && u
        <= 0x200A) || u == 0x2028 || u == 0x2029 || u == 0x202F || u == 0x205F || u == 0x3000
}

/// String equality by character-wise comparison.
pub fn str_eq(a: &str, b: &str) -> (r: bool)
    ensures
        r == (a@ == b@),
{
    let n = a.unicode_len();
    if n != b.unicode_len() {
        return false;
    }
    let mut i: usize = 0;
    while i < n
        invariant
            i <= n,
            n == a@.len(),
            n == b@.len(),
            forall|j: int| 0 <= j < i ==> a@[j] == b@[j],
        decreases n - i,
    {
        if a.get_char(i) != b.get_char(i) {
            return false;
        }
        i += 1;
    }
    proof {
        assert(a@ =~= b@);
    }
    true
}

/// Index of the first occurrence of `c` in `s`, if any.
pub fn find_char(s: &str, c: char) -> (r: Option<usize>)
    ensures
        match r {
            Some(i) => i < s@.len() && s@[i as int] == c && forall|j: int|
                0 <= j < i ==> s@[j] != c,
            None => forall|j: int| 0 <= j < s@.len() ==> s@[j] != c,
        },
{
    let n = s.unicode_len();
    let mut i: usize = 0;
    while i < n
        invariant
            i <= n,
            n == s@.len(),
            forall|j: int| 0 <= j < i ==> s@[j] != c,
        decreases n - i,
    {
        if s.get_char(i) == c {
            return Some(i);
        }
        i += 1;
    }
    None
}

/// Concatenation of two string slices.
pub fn str_concat(a: &str, b: &str) -> (r: String)
    ensures
        r@ == a@ + b@,
{
    let s = String::from_str(a);
    s.concat(b)
}

/// `s` with its leading whitespace removed.
pub open spec fn spec_trim_start(s: Seq<char>) -> Seq<char>
    decreases s.len(),
{
    if s.len() > 0 && is_ws_char(s[0]) {
        spec_trim_start(s.skip(1))
    } else {
        s
    }
}

/// `s` with its trailing whitespace removed.
pub open spec fn spec_trim_end(s: Seq<char>) -> Seq<char>
    decreases s.len(),
{
    if s.len() > 0 && is_ws_char(s[s.len() - 1]) {
        spec_trim_end(s.take(s.len() - 1))
    } else {
        s
    }
}

/// `s` with whitespace removed from both ends, as `str::trim` does.
pub open spec fn spec_trim(s: Seq<char>) -> Seq<char> {
    spec_trim_end(spec_trim_start(s))
}

/// Trims whitespace from both ends of `s`.
pub fn trim_str(s: &str) -> (r: String)
    ensures
        r@ == spec_trim(s@),
{
    let n = s.unicode_len();
    let mut a: usize = 0;
    proof {
        assert(s@.skip(0) =~= s@);
    }
    while a < n && ws_char(s.get_char(a))
        invariant
            a <= n,
            n == s@.len(),
            spec_trim_start(s@) == spec_trim_start(s@.skip(a as int)),
        decreases n - a,
    {
        proof {
            assert(s@.skip(a as int)[0] == s@[a as int]);
            assert(s@.skip(a as int).skip(1) =~= s@.skip(a as int + 1));
        }
        a += 1;
    }
    if a == n {
        proof {
            assert(s@.skip(a as int) =~= Seq::<char>::empty());
        }
        return String::new();
    }
    // the first character of the remainder is not whitespace
    proof {
        assert(s@.skip(a as int)[0] == s@[a as int]);
        assert(spec_trim_start(s@) == s@.skip(a as int));
    }
    let mut b: usize = n;
    while ws_char(s.get_char(b - 1))
        invariant
            a < b <= n,
            n == s@.len(),
            !is_ws_char(s@[a as int]),
            spec_trim_end(s@.skip(a as int)) == spec_trim_end(s@.subrange(a as int, b as int)),
        decreases b,
    {
        proof {
            let sub = s@.subrange(a as int, b as int);
            assert(sub[sub.len() - 1] == s@[b - 1]);
            assert(sub.take(sub.len() - 1) =~= s@.subrange(a as int, b as int - 1));
            // b - 1 cannot be a: the character at a is not whitespace
            assert(b - 1 != a);
        }
        b -= 1;
    }
    proof {
        let sub = s@.subrange(a as int, b as int);
        assert(sub[sub.len() - 1] == s@[b - 1]);
        assert(s@.skip(a as int) =~= s@.subrange(a as int, n as int));
    }
    s.substring_char(a, b).to_owned()
}

/// `p` occurs as a contiguous substring of `s`.
pub open spec fn spec_contains(s: Seq<char>, p: Seq<char>) -> bool {
    exists|i: int|
        0 <= i && i + p.len() <= s.len() && #[trigger] s.subrange(i, i + p.len() as int) == p
}

/// Compares the window of `s` starting at `i` with `pat`.
pub fn str_starts_with_at(s: &str, i: usize, pat: &str) -> (r: bool)
    requires
        i + pat@.len() <= s@.len(),
    ensures
        r == (s@.subrange(i as int, i as int + pat@.len() as int) == pat@),
{
    let n = s.unicode_len();
    let m = pat.unicode_len();
    let ghost win = s@.subrange(i as int, i as int + pat@.len() as int);
    let mut j: usize = 0;
    while j < m
        invariant
            j <= m,
            m == pat@.len(),
            n == s@.len(),
            i + m <= n,
            win == s@.subrange(i as int, i as int + m as int),
            forall|k: int| 0 <= k < j ==> win[k] == pat@[k],
        decreases m - j,
    {
        if s.get_char(i + j) != pat.get_char(j) {
            proof {
                assert(win[j as int] == s@[i + j]);
            }
            return false;
        }
        proof {
            assert(win[j as int] == s@[i + j]);
        }
        j += 1;
    }
    proof {
        assert(win =~= pat@);
    }
    true
}

/// Whether `pat` occurs anywhere in `s`.
pub fn contains_substr(s: &str, pat: &str) -> (r: bool)
    ensures
        r == spec_contains(s@, pat@),
{
    let n = s.unicode_len();
    let m = pat.unicode_len();
    if m > n {
        return false;
    }
    if m == 0 {
        proof {
            assert(s@.subrange(0, 0 + pat@.len() as int) =~= pat@);
        }
        return true;
    }
    let mut i: usize = 0;
    while i <= n - m
        invariant
            1 <= m <= n,
            n == s@.len(),
            m == pat@.len(),
            i <= n - m + 1,
            forall|j: int| 0 <= j < i ==> #[trigger] s@.subrange(j, j + m as int) != pat@,
        decreases n - m + 1 - i,
    {
        if str_starts_with_at(s, i, pat) {
            return true;
        }
        i += 1;
    }
    false
}

/// Replacement of every non-overlapping occurrence of `pat` in `s` by `rep`,
/// scanning left to right, as `str::replace` does.
pub open spec fn spec_replace(s: Seq<char>, pat: Seq<char>, rep: Seq<char>) -> Seq<char>
    decreases s.len(),
{
    if pat.len() == 0 || s.len() < pat.len() {
        s
    } else if s.take(pat.len() as int) == pat {
        rep + spec_replace(s.skip(pat.len() as int), pat, rep)
    } else {
        seq![s[0]] + spec_replace(s.skip(1), pat, rep)
    }
}

/// Replaces every occurrence of `pat` in `s` by `rep`.
pub fn replace_all(s: &str, pat: &str, rep: &str) -> (r: String)
    requires
        pat@.len() > 0,
    ensures
        r@ == spec_replace(s@, pat@, rep@),
{
    let n = s.unicode_len();
    let m = pat.unicode_len();
    if m > n {
        return String::from_str(s);
    }
    let mut out = String::new();
    let mut i: usize = 0;
    proof {
        assert(s@.skip(0) =~= s@);
        assert(out@ + spec_replace(s@, pat@, rep@) =~= spec_replace(s@, pat@, rep@));
    }
    while i <= n - m
        invariant
            1 <= m <= n,
            i <= n,
            n == s@.len(),
            m == pat@.len(),
            spec_replace(s@, pat@, rep@) == out@ + spec_replace(s@.skip(i as int), pat@, rep@),
        decreases n - i,
    {
        let ghost out0 = out@;
        let ghost rest = s@.skip(i as int);
        let window_matches: bool = str_starts_with_at(s, i, pat);
        if window_matches {
            out.append(rep);
            proof {
                assert(rest.take(m as int) =~= s@.subrange(i as int, i as int + m as int));
                assert(rest.skip(m as int) =~= s@.skip(i as int + m as int));
                assert((out0 + rep@) + spec_replace(s@.skip(i as int + m as int), pat@, rep@)
                    =~= out0 + (rep@ + spec_replace(rest.skip(m as int), pat@, rep@)));
            }
            i += m;
        } else {
            let piece = s.substring_char(i, i + 1);
            out.append(piece);
            proof {
                assert(rest.take(m as int) =~= s@.subrange(i as int, i as int + m as int));
                assert(rest[0] == s@[i as int]);
                assert(piece@ =~= seq![rest[0]]);
                assert(rest.skip(1) =~= s@.skip(i as int + 1));
                assert((out0 + piece@) + spec_replace(s@.skip(i as int + 1), pat@, rep@)
                    =~= out0 + (seq![rest[0]] + spec_replace(rest.skip(1), pat@, rep@)));
            }
            i += 1;
        }
    }
    let ghost out1 = out@;
    let tail = s.substring_char(i, n);
    out.append(tail);
    proof {
        assert(tail@ =~= s@.skip(i as int));
        assert(spec_replace(s@.skip(i as int), pat@, rep@) == s@.skip(i as int));
        assert(out1 + tail@ =~= out1 + spec_replace(s@.skip(i as int), pat@, rep@));
    }
    out
}

/// Number of whitespace-separated tokens in `s`, counted as `str::split_whitespace`
/// counts them; `prev_ws` says whether the character before `s` was whitespace.
pub open spec fn count_tok(s: Seq<char>, prev_ws: bool) -> nat
    decreases s.len(),
{
    if s.len() == 0 {
        0
    } else {
        (if prev_ws && !is_ws_char(s[0]) {
            1nat
        } else {
            0nat
        }) + count_tok(s.skip(1), is_ws_char(s[0]))
    }
}

/// Number of whitespace-separated tokens in `s`.
pub open spec fn spec_count_tokens(s: Seq<char>) -> nat {
    count_tok(s, true)
}

/// Counts whitespace-separated tokens.
pub fn count_tokens(s: &str) -> (r: usize)
    ensures
        r == spec_count_tokens(s@),
{
    let n = s.unicode_len();
    let mut cnt: usize = 0;
    let mut prev_ws = true;
    let mut i: usize = 0;
    proof {
        assert(s@.skip(0) =~= s@);
    }
    while i < n
        invariant
            i <= n,
            n == s@.len(),
            cnt <= i,
            spec_count_tokens(s@) == cnt + count_tok(s@.skip(i as int), prev_ws),
        decreases n - i,
    {
        let c = s.get_char(i);
        let w = ws_char(c);
        proof {
            assert(s@.skip(i as int)[0] == s@[i as int]);
            assert(s@.skip(i as int).skip(1) =~= s@.skip(i as int + 1));
        }
        if prev_ws && !w {
            cnt += 1;
        }
        prev_ws = w;
        i += 1;
    }
    cnt
}

/// Index of the first occurrence of `c` in `s`, or `s.len()` if none.
pub open spec fn idx_first(s: Seq<char>, c: char) -> int
    decreases s.len(),
{
    if s.len() == 0 {
        0
    } else if s[0] == c {
        0
    } else {
        1 + idx_first(s.skip(1), c)
    }
}

pub proof fn lemma_idx_first(s: Seq<char>, c: char)
    ensures
        0 <= idx_first(s, c) <= s.len(),
        forall|j: int| 0 <= j < idx_first(s, c) ==> #[trigger] s[j] != c,
        idx_first(s, c) < s.len() ==> s[idx_first(s, c)] == c,
    decreases s.len(),
{
    if s.len() > 0 && s[0] != c {
        lemma_idx_first(s.skip(1), c);
        assert forall|j: int| 0 <= j < idx_first(s, c) implies #[trigger] s[j] != c by {
            if j > 0 {
                assert(s.skip(1)[j - 1] == s[j]);
            }
        }
        if idx_first(s, c) < s.len() {
            assert(s.skip(1)[idx_first(s, c) - 1] == s[idx_first(s, c)]);
        }
    }
}

/// Index of the first whitespace character of `s`, or `s.len()` if none.
pub open spec fn idx_first_ws(s: Seq<char>) -> int
    decreases s.len(),
{
    if s.len() == 0 {
        0
    } else if is_ws_char(s[0]) {
        0
    } else {
        1 + idx_first_ws(s.skip(1))
    }
}

/// Index of the first non-whitespace character of `s`, or `s.len()` if none.
pub open spec fn idx_first_non_ws(s: Seq<char>) -> int
    decreases s.len(),
{
    if s.len() == 0 {
        0
    } else if !is_ws_char(s[0]) {
        0
    } else {
        1 + idx_first_non_ws(s.skip(1))
    }
}

pub proof fn lemma_idx_first_ws(s: Seq<char>)
    ensures
        0 <= idx_first_ws(s) <= s.len(),
        forall|j: int| 0 <= j < idx_first_ws(s) ==> !is_ws_char(#[trigger] s[j]),
        idx_first_ws(s) < s.len() ==> is_ws_char(s[idx_first_ws(s)]),
    decreases s.len(),
{
    if s.len() > 0 && !is_ws_char(s[0]) {
        lemma_idx_first_ws(s.skip(1));
        assert forall|j: int| 0 <= j < idx_first_ws(s) implies !is_ws_char(#[trigger] s[j]) by {
            if j > 0 {
                assert(s.skip(1)[j - 1] == s[j]);
            }
        }
        if idx_first_ws(s) < s.len() {
            assert(s.skip(1)[idx_first_ws(s) - 1] == s[idx_first_ws(s)]);
        }
    }
}

pub proof fn lemma_idx_first_non_ws(s: Seq<char>)
    ensures
        0 <= idx_first_non_ws(s) <= s.len(),
        forall|j: int| 0 <= j < idx_first_non_ws(s) ==> is_ws_char(#[trigger] s[j]),
        idx_first_non_ws(s) < s.len() ==> !is_ws_char(s[idx_first_non_ws(s)]),
    decreases s.len(),
{
    if s.len() > 0 && is_ws_char(s[0]) {
        lemma_idx_first_non_ws(s.skip(1));
        assert forall|j: int| 0 <= j < idx_first_non_ws(s) implies is_ws_char(#[trigger] s[j]) by {
            if j > 0 {
                assert(s.skip(1)[j - 1] == s[j]);
            }
        }
        if idx_first_non_ws(s) < s.len() {
            assert(s.skip(1)[idx_first_non_ws(s) - 1] == s[idx_first_non_ws(s)]);
        }
    }
}

/// The split of `s` into exactly two tokens separated by a run of spaces and
/// tabs, with no other whitespace anywhere, or `None` if `s` has no such shape.
pub open spec fn spec_two_tokens(s: Seq<char>) -> Option<(Seq<char>, Seq<char>)> {
    let b1 = idx_first_ws(s);
    if b1 == 0 || b1 == s.len() {
        None
    } else {
        let k = idx_first_non_ws(s.skip(b1));
        if k == s.skip(b1).len() {
            None
        } else {
            let a2 = b1 + k;
            if (forall|i: int| b1 <= i < a2 ==> (#[trigger] s[i] == ' ' || s[i] == '\t')) && (forall|
                i: int|
                a2 <= i < s.len() ==> !is_ws_char(#[trigger] s[i])) {
                Some((s.take(b1), s.skip(a2)))
            } else {
                None
            }
        }
    }
}

/// Splits `s` into its two tokens when it has the two-token shape.
#[verifier::loop_isolation(false)]
pub fn split_two_tokens(s: &str) -> (r: Option<(String, String)>)
    ensures
        match r {
            Some(pair) => spec_two_tokens(s@) == Some((pair.0@, pair.1@)),
            None => spec_two_tokens(s@) is None,
        },
{
    let n = s.unicode_len();
    // find the first whitespace character
    let mut b1: usize = 0;
    while b1 < n && !ws_char(s.get_char(b1))
        invariant
            b1 <= n,
            n == s@.len(),
            forall|j: int| 0 <= j < b1 ==> !is_ws_char(#[trigger] s@[j]),
        decreases n - b1,
    {
        b1 += 1;
    }
    proof {
        lemma_idx_first_ws(s@);
        if idx_first_ws(s@) < b1 {
            assert(is_ws_char(s@[idx_first_ws(s@)]));
        }
        assert(idx_first_ws(s@) == b1);
    }
    if b1 == 0 || b1 == n {
        return None;
    }
    // find the first non-whitespace character after it
    let mut a2: usize = b1;
    while a2 < n && ws_char(s.get_char(a2))
        invariant
            b1 <= a2 <= n,
            n == s@.len(),
            forall|j: int| b1 <= j < a2 ==> is_ws_char(#[trigger] s@[j]),
        decreases n - a2,
    {
        a2 += 1;
    }
    proof {
        let rest = s@.skip(b1 as int);
        lemma_idx_first_non_ws(rest);
        let k = idx_first_non_ws(rest);
        assert(forall|j: int| 0 <= j < rest.len() ==> rest[j] == s@[b1 + j]);
        if b1 + k < a2 {
            assert(!is_ws_char(rest[k]));
            assert(rest[k] == s@[b1 + k]);
        }
        if b1 + k > a2 {
            assert(rest[a2 - b1] == s@[a2 as int]);
            assert(is_ws_char(s@[a2 as int]));
        }
        assert(b1 + k == a2);
    }
    if a2 == n {
        return None;
    }
    // the separator run may hold only spaces and tabs
    let mut i: usize = b1;
    while i < a2
        invariant
            b1 <= i <= a2 <= n,
            n == s@.len(),
            forall|j: int| b1 <= j < i ==> (#[trigger] s@[j] == ' ' || s@[j] == '\t'),
        decreases a2 - i,
    {
        let c = s.get_char(i);
        if !(c == ' ' || c == '\t') {
            return None;
        }
        i += 1;
    }
    // no whitespace may follow the second token
    let mut j: usize = a2;
    while j < n && !ws_char(s.get_char(j))
        invariant
            a2 <= j <= n,
            n == s@.len(),
            forall|k: int| a2 <= k < j ==> !is_ws_char(#[trigger] s@[k]),
        decreases n - j,
    {
        j += 1;
    }
    if j < n {
        return None;
    }
    let first = s.substring_char(0, b1).to_owned();
    let second = s.substring_char(a2, n).to_owned();
    proof {
        assert(first@ =~= s@.take(b1 as int));
        assert(second@ =~= s@.skip(a2 as int));
    }
    Some((first, second))
}

/// The decimal digit characters in order.
pub open spec fn spec_digit(d: int) -> char {
    "0123456789"@[d]
}

/// The decimal representation of `n`, most significant digit first.
pub open spec fn spec_dec(n: nat) -> Seq<char>
    decreases n,
{
    if n < 10 {
        seq![spec_digit(n as int)]
    } else {
        spec_dec(n / 10) + seq![spec_digit((n % 10) as int)]
    }
}

/// Formats `n` in decimal.
pub fn u64_to_dec(n: u64) -> (r: String)
    ensures
        r@ == spec_dec(n as nat),
    decreases n,
{
    let ds = "0123456789";
    proof {
        reveal_strlit("0123456789");
    }
    if n < 10 {
        let d = ds.substring_char(n as usize, n as usize + 1);
        proof {
            assert(d@ =~= seq![spec_digit(n as int)]);
        }
        d.to_owned()
    } else {
        let q = u64_to_dec(n / 10);
        let d = ds.substring_char((n % 10) as usize, (n % 10) as usize + 1);
        proof {
            assert(d@ =~= seq![spec_digit((n % 10) as int)]);
        }
        q.concat(d)
    }
}

/// ASCII lowercase of one character; other characters are unchanged.
pub open spec fn spec_lower_char(c: char) -> char {
    if 'A' <= c <= 'Z' {
        ((c as u32) + 32) as char
    } else {
        c
    }
}

/// The character-wise ASCII lowercase of `s`.
pub open spec fn spec_lower(s: Seq<char>) -> Seq<char> {
    s.map_values(|c: char| spec_lower_char(c))
}

/// Whether `a` equals `b` after ASCII-lowercasing `a`; `b` is expected to be
/// already lowercase.
pub fn str_eq_lower(a: &str, b: &str) -> (r: bool)
    ensures
        r == (spec_lower(a@) == b@),
{
    let n = a.unicode_len();
    if n != b.unicode_len() {
        proof {
            assert(spec_lower(a@).len() == a@.len());
        }
        return false;
    }
    let mut i: usize = 0;
    while i < n
        invariant
            i <= n,
            n == a@.len(),
            n == b@.len(),
            forall|j: int| 0 <= j < i ==> spec_lower_char(a@[j]) == b@[j],
        decreases n - i,
    {
        let ca = a.get_char(i);
        let cb = b.get_char(i);
        let ua = ca as u32;
        let ub = cb as u32;
        let la = if 65 <= ua && ua <= 90 {
            ua + 32
        } else {
            ua
        };
        proof {
            assert(('A' as u32) == 65 && ('Z' as u32) == 90);
            assert(ca as u32 <= 0x10FFFF);
            if 'A' <= ca <= 'Z' {
                assert(spec_lower_char(ca) as u32 == la);
            } else {
                assert(spec_lower_char(ca) == ca);
            }
        }
        if la != ub {
            proof {
                assert(spec_lower(a@)[i as int] == spec_lower_char(a@[i as int]));
            }
            return false;
        }
        proof {
            assert(spec_lower_char(ca) as u32 == cb as u32);
            assert(spec_lower_char(ca) == cb);
        }
        i += 1;
    }
    proof {
        assert(spec_lower(a@) =~= b@);
    }
    true
}

} // verus!
