//! A verified model of the POSIX-style path operations the library needs:
//! absolute/relative classification, parent, join, and file name. Paths are
//! plain strings; the model follows the platform path rules for paths without
//! `.` components (a trailing `.` or `..` component is treated as having no
//! file name).

use vstd::prelude::*;
use vstd::string::StrSliceExecFns;
use vstd::string::StringExecFns;

verus! {

/// A path beginning with a separator is absolute.
pub open spec fn path_is_absolute(p: Seq<char>) -> bool {
    p.len() > 0 && p[0] == '/'
}

/// `p` without its trailing run of separators.
pub open spec fn strip_trailing_slashes(p: Seq<char>) -> Seq<char>
    decreases p.len(),
{
    if p.len() > 0 && p[p.len() - 1] == '/' {
        strip_trailing_slashes(p.take(p.len() - 1))
    } else {
        p
    }
}

/// Index of the last occurrence of `c` in `s`, or `-1` if there is none.
pub open spec fn last_index_of(s: Seq<char>, c: char) -> int
    decreases s.len(),
{
    if s.len() == 0 {
        -1
    } else if s[s.len() - 1] == c {
        s.len() - 1
    } else {
        last_index_of(s.take(s.len() - 1), c)
    }
}

/// The parent of `p`: the path without its final component. The root and the
/// empty path have no parent; a single relative component has the empty parent.
pub open spec fn spec_parent(p: Seq<char>) -> Option<Seq<char>> {
    let s1 = strip_trailing_slashes(p);
    if s1.len() == 0 {
        None
    } else {
        let k = last_index_of(s1, '/');
        if k == -1 {
            Some(Seq::empty())
        } else {
            let s2 = strip_trailing_slashes(s1.take(k));
            if s2.len() == 0 {
                Some("/"@)
            } else {
                Some(s2)
            }
        }
    }
}

/// `p` extended by the component(s) `q`: an absolute `q` replaces `p`, and
/// otherwise a separator is inserted unless one is already present.
pub open spec fn spec_join(p: Seq<char>, q: Seq<char>) -> Seq<char> {
    if path_is_absolute(q) {
        q
    } else if p.len() == 0 {
        q
    } else if p[p.len() - 1] == '/' {
        p + q
    } else {
        p + "/"@ + q
    }
}

/// The final component of `p`, if it names an entry.
pub open spec fn spec_file_name(p: Seq<char>) -> Option<Seq<char>> {
    let s1 = strip_trailing_slashes(p);
    if s1.len() == 0 {
        None
    } else {
        let k = last_index_of(s1, '/');
        let name = s1.skip(k + 1);
        if name == "."@ || name == ".."@ {
            None
        } else {
            Some(name)
        }
    }
}

/// Whether `p` is a relative path.
pub fn path_is_relative(p: &str) -> (r: bool)
    ensures
        r == !path_is_absolute(p@),
{
    let n = p.unicode_len();
    n == 0 || p.get_char(0) != '/'
}

/// Index one past the end of `p` with trailing separators removed.
#[verifier::loop_isolation(false)]
fn end_without_trailing_slashes(p: &str) -> (b: usize)
    ensures
        b <= p@.len(),
        strip_trailing_slashes(p@) == p@.take(b as int),
        b > 0 ==> p@[b - 1] != '/',
{
    let n = p.unicode_len();
    let mut b: usize = n;
    proof {
        assert(p@.take(n as int) =~= p@);
    }
    while b > 0 && p.get_char(b - 1) == '/'
        invariant
            b <= n,
            strip_trailing_slashes(p@) == strip_trailing_slashes(p@.take(b as int)),
        decreases b,
    {
        proof {
            let t = p@.take(b as int);
            assert(t[t.len() - 1] == p@[b - 1]);
            assert(t.take(t.len() - 1) =~= p@.take(b as int - 1));
        }
        b -= 1;
    }
    proof {
        if b == 0 {
            assert(p@.take(0) =~= Seq::<char>::empty());
        } else {
            let t = p@.take(b as int);
            assert(t[t.len() - 1] == p@[b - 1]);
        }
    }
    b
}

/// Index of the last separator strictly before `b` in `p`, or `None`.
#[verifier::loop_isolation(false)]
fn last_slash_before(p: &str, b: usize) -> (r: Option<usize>)
    requires
        b <= p@.len(),
    ensures
        match r {
            Some(k) => k < b && last_index_of(p@.take(b as int), '/') == k,
            None => last_index_of(p@.take(b as int), '/') == -1,
        },
{
    let mut k: usize = b;
    while k > 0 && p.get_char(k - 1) != '/'
        invariant
            k <= b,
            last_index_of(p@.take(b as int), '/') == last_index_of(p@.take(k as int), '/'),
        decreases k,
    {
        proof {
            let t = p@.take(k as int);
            assert(t[t.len() - 1] == p@[k - 1]);
            assert(t.take(t.len() - 1) =~= p@.take(k as int - 1));
        }
        k -= 1;
    }
    if k == 0 {
        proof {
            assert(p@.take(0) =~= Seq::<char>::empty());
        }
        None
    } else {
        proof {
            let t = p@.take(k as int);
            assert(t[t.len() - 1] == p@[k - 1]);
        }
        Some(k - 1)
    }
}

/// The parent of `p`, as `std::path::Path::parent` computes it.
pub fn path_parent(p: &str) -> (r: Option<String>)
    ensures
        match r {
            Some(q) => spec_parent(p@) == Some(q@),
            None => spec_parent(p@) is None,
        },
{
    let b = end_without_trailing_slashes(p);
    if b == 0 {
        return None;
    }
    proof {
        assert(strip_trailing_slashes(p@) == p@.take(b as int));
    }
    match last_slash_before(p, b) {
        None => {
            proof {
                assert(last_index_of(strip_trailing_slashes(p@), '/') == -1);
            }
            Some(String::new())
        },
        Some(k) => {
            let ghost s1 = strip_trailing_slashes(p@);
            proof {
                assert(s1.take(k as int) =~= p@.take(k as int));
            }
            // strip the trailing separators of the prefix as well
            let sub = p.substring_char(0, k);
            let b2 = end_without_trailing_slashes(sub);
            proof {
                assert(sub@ =~= p@.take(k as int));
                assert(strip_trailing_slashes(s1.take(k as int)) == sub@.take(b2 as int));
            }
            if b2 == 0 {
                Some("/".to_owned())
            } else {
                let out = sub.substring_char(0, b2).to_owned();
                proof {
                    assert(out@ =~= sub@.take(b2 as int));
                }
                Some(out)
            }
        },
    }
}

/// Joins `q` onto `p`.
pub fn path_join(p: &str, q: &str) -> (r: String)
    ensures
        r@ == spec_join(p@, q@),
{
    if !path_is_relative(q) {
        return q.to_owned();
    }
    let n = p.unicode_len();
    if n == 0 {
        return q.to_owned();
    }
    if p.get_char(n - 1) == '/' {
        crate::text::str_concat(p, q)
    } else {
        let mut out = crate::text::str_concat(p, "/");
        out.append(q);
        proof {
            assert((p@ + "/"@) + q@ =~= p@ + "/"@ + q@);
        }
        out
    }
}

/// The final component of `p`, if it names an entry.
pub fn path_file_name(p: &str) -> (r: Option<String>)
    ensures
        match r {
            Some(q) => spec_file_name(p@) == Some(q@),
            None => spec_file_name(p@) is None,
        },
{
    let b = end_without_trailing_slashes(p);
    if b == 0 {
        return None;
    }
    let ghost s1 = strip_trailing_slashes(p@);
    let start: usize = match last_slash_before(p, b) {
        None => 0,
        Some(k) => k + 1,
    };
    let name = p.substring_char(start, b);
    proof {
        assert(s1 == p@.take(b as int));
        assert(name@ =~= s1.skip(last_index_of(s1, '/') + 1));
    }
    if crate::text::str_eq(name, ".") || crate::text::str_eq(name, "..") {
        None
    } else {
        Some(name.to_owned())
    }
}

} // verus!
