//! A dotfile-linking planner and executor.
//!
//! Given a declared mapping of `<source> -> <destination>` path pairs, the
//! library classifies each destination's current state into an action,
//! resolves conflicts, and computes the filesystem mutations that make every
//! destination a symbolic link to its declared source, with a uniquely-named
//! backup scheme for content that must be preserved.
//!
//! All decision logic is verified here over plain `String` paths and a model
//! of the relevant filesystem state; the thin unverified shell around the
//! library performs the actual filesystem probes and mutations.

use vstd::prelude::*;

pub mod config_parser;
pub mod executor;
pub mod path;
pub mod plan;
pub mod preview;
pub mod prompt;
pub mod text;

use vstd::string::StringExecFns;

verus! {

/// The resolved target of a symlink at `link_path` whose raw target is
/// `target`: a relative target is interpreted relative to the symlink's own
/// parent directory, matching POSIX symlink resolution.
pub open spec fn spec_resolve_symlink_target(link_path: Seq<char>, target: Seq<char>) -> Seq<
    char,
> {
    if !path::path_is_absolute(target) {
        let base = match path::spec_parent(link_path) {
            Some(q) => q,
            None => "."@,
        };
        path::spec_join(base, target)
    } else {
        target
    }
}

/// Resolves a raw symlink target read from `link_path` into a concrete path,
/// so it can be compared reliably with an expected target.
pub fn resolve_symlink_target(link_path: &str, target: &str) -> (r: String)
    ensures
        r@ == spec_resolve_symlink_target(link_path@, target@),
{
    if path::path_is_relative(target) {
        let base: String = match path::path_parent(link_path) {
            Some(q) => q,
            None => ".".to_owned(),
        };
        path::path_join(base.as_str(), target)
    } else {
        target.to_owned()
    }
}

/// The `k`-th backup name tried for a destination whose file name is `name`:
/// the marker suffix alone, then the marker followed by `.1`, `.2`, and so on.
pub open spec fn spec_backup_candidate(name: Seq<char>, k: nat) -> Seq<char> {
    if k == 0 {
        name + ".bak.dbdm"@
    } else {
        name + ".bak.dbdm"@ + "."@ + text::spec_dec(k)
    }
}

proof fn lemma_dec_props(n: nat)
    ensures
        text::spec_dec(n).len() >= 1,
        text::spec_dec(n).last() == text::spec_digit((n % 10) as int),
        (n < 10 <==> text::spec_dec(n).len() == 1),
    decreases n,
{
    if n >= 10 {
        lemma_dec_props(n / 10);
    }
}

proof fn lemma_digit_inj(a: int, b: int)
    requires
        0 <= a < 10,
        0 <= b < 10,
        text::spec_digit(a) == text::spec_digit(b),
    ensures
        a == b,
{
    reveal_strlit("0123456789");
}

proof fn lemma_dec_inj(a: nat, b: nat)
    requires
        text::spec_dec(a) == text::spec_dec(b),
    ensures
        a == b,
    decreases a + b,
{
    lemma_dec_props(a);
    lemma_dec_props(b);
    lemma_digit_inj((a % 10) as int, (b % 10) as int);
    if a < 10 && b < 10 {
    } else if a >= 10 && b >= 10 {
        assert((text::spec_dec(a / 10) + seq![text::spec_digit((a % 10) as int)]).take(
            text::spec_dec(a).len() - 1,
        ) =~= text::spec_dec(a / 10));
        assert((text::spec_dec(b / 10) + seq![text::spec_digit((b % 10) as int)]).take(
            text::spec_dec(b).len() - 1,
        ) =~= text::spec_dec(b / 10));
        lemma_dec_inj(a / 10, b / 10);
    }
}

proof fn lemma_candidate_inj(name: Seq<char>, j: nat, k: nat)
    requires
        j != k,
    ensures
        spec_backup_candidate(name, j) != spec_backup_candidate(name, k),
{
    reveal_strlit(".bak.dbdm");
    reveal_strlit(".");
    if j != 0 && k != 0 {
        lemma_dec_props(j);
        lemma_dec_props(k);
        if spec_backup_candidate(name, j) == spec_backup_candidate(name, k) {
            let pre = name.len() + ".bak.dbdm"@.len() + 1;
            assert(spec_backup_candidate(name, j).skip(pre as int) =~= text::spec_dec(j));
            assert(spec_backup_candidate(name, k).skip(pre as int) =~= text::spec_dec(k));
            lemma_dec_inj(j, k);
        }
    } else {
        let z: nat = if j == 0 {
            k
        } else {
            j
        };
        lemma_dec_props(z);
    }
}

proof fn lemma_candidate_pigeon(names: Seq<Seq<char>>, name: Seq<char>, m: nat)
    requires
        forall|k: nat| k <= m ==> names.contains(#[trigger] spec_backup_candidate(name, k)),
    ensures
        names.len() >= m + 1,
    decreases m,
{
    assert(names.contains(spec_backup_candidate(name, m)));
    let i = choose|i: int| 0 <= i < names.len() && names[i] == spec_backup_candidate(name, m);
    if m == 0 {
    } else {
        let rest = names.remove(i);
        names.remove_ensures(i);
        assert forall|k: nat| k <= (m - 1) as nat implies rest.contains(
            #[trigger] spec_backup_candidate(name, k),
        ) by {
            assert(names.contains(spec_backup_candidate(name, k)));
            let j = choose|j: int|
                0 <= j < names.len() && names[j] == spec_backup_candidate(name, k);
            lemma_candidate_inj(name, k, m);
            if j < i {
                assert(rest[j] == names[j]);
            } else {
                assert(rest[j - 1] == names[j]);
            }
        }
        lemma_candidate_pigeon(rest, name, (m - 1) as nat);
    }
}

/// The views of a vector of strings.
pub open spec fn names_view(v: Seq<String>) -> Seq<Seq<char>> {
    v.map_values(|s: String| s@)
}

/// Whether `v` holds a string equal to `s`.
fn contains_string(v: &Vec<String>, s: &str) -> (r: bool)
    ensures
        r == names_view(v@).contains(s@),
{
    let n = v.len();
    let mut i: usize = 0;
    while i < n
        invariant
            i <= n,
            n == v@.len(),
            forall|j: int| 0 <= j < i ==> names_view(v@)[j] != s@,
        decreases n - i,
    {
        if text::str_eq(v[i].as_str(), s) {
            proof {
                assert(names_view(v@)[i as int] == s@);
            }
            return true;
        }
        i += 1;
    }
    false
}

/// Chooses the backup path for a destination named `name` inside `dir`: the
/// first name of the form `<name>.bak.dbdm`, `<name>.bak.dbdm.1`,
/// `<name>.bak.dbdm.2`, ... that does not clash with the entries already in
/// `dir`, joined onto `dir`. `existing` lists the names already present.
pub fn unique_backup_path(dir: &str, name: &str, existing: &Vec<String>) -> (r: String)
    ensures
        exists|k: nat|
            {
                &&& r@ == path::spec_join(dir@, #[trigger] spec_backup_candidate(name@, k))
                &&& !names_view(existing@).contains(spec_backup_candidate(name@, k))
                &&& forall|j: nat|
                    j < k ==> names_view(existing@).contains(
                        #[trigger] spec_backup_candidate(name@, j),
                    )
            },
{
    let base = text::str_concat(name, ".bak.dbdm");
    let mut cand: String = base.clone();
    let mut k: u64 = 0;
    let n_existing = existing.len();
    proof {
        assert(cand@ == spec_backup_candidate(name@, 0));
    }
    while contains_string(existing, cand.as_str())
        invariant
            cand@ == spec_backup_candidate(name@, k as nat),
            base@ == name@ + ".bak.dbdm"@,
            n_existing == existing@.len(),
            forall|j: nat|
                j < k ==> names_view(existing@).contains(#[trigger] spec_backup_candidate(name@, j)),
            k <= n_existing,
        decreases existing@.len() - k,
    {
        proof {
            if k + 1 > existing@.len() {
                lemma_candidate_pigeon(names_view(existing@), name@, k as nat);
            }
        }
        k = k + 1;
        let dotted = text::str_concat(base.as_str(), ".");
        let digits = text::u64_to_dec(k);
        cand = dotted.concat(digits.as_str());
        proof {
            assert(cand@ =~= name@ + ".bak.dbdm"@ + "."@ + text::spec_dec(k as nat));
        }
    }
    path::path_join(dir, cand.as_str())
}

} // verus!
