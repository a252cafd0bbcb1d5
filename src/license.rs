use vstd::prelude::*;

use crate::error::GenericBuildError;

verus! {

/// A discovered path lies under `root`: it is `root`, a separator, and at least
/// one more character.
pub open spec fn is_under_root(root: Seq<char>, path: Seq<char>) -> bool {
    path.len() > root.len() + 1 && path.subrange(0, root.len() + 1 as int) == root.push('/')
}

/// What is left of a path under `root` once `root` and the separator are removed.
pub open spec fn relative_to_root(root: Seq<char>, path: Seq<char>) -> Seq<char> {
    path.subrange(root.len() + 1 as int, path.len() as int)
}

/// Whether `s` begins with `p`.
fn starts_with(s: &str, p: &str) -> (r: bool)
    ensures
        r == (p@.len() <= s@.len() && s@.subrange(0, p@.len() as int) == p@),
{
    let n = s.unicode_len();
    let m = p.unicode_len();
    if m > n {
        return false;
    }
    let mut i: usize = 0;
    while i < m
        invariant
            m == p@.len(),
            n == s@.len(),
            m <= n,
            i <= m,
            forall|j: int| 0 <= j < i ==> s@[j] == p@[j],
        decreases m - i,
    {
        if s.get_char(i) != p.get_char(i) {
            assert(s@.subrange(0, m as int)[i as int] != p@[i as int]);
            return false;
        }
        i = i + 1;
    }
    assert(s@.subrange(0, m as int) =~= p@);
    true
}

/// Rewrites a discovered license path so that it is relative to the source
/// root: `/src/LICENSE` under `/src` becomes `LICENSE`. A path that does not
/// lie under the root is refused rather than turned into a wrong relative path.
pub fn trim_license_path(root: &str, path: &str) -> (r: Result<String, GenericBuildError>)
    ensures
        r is Ok <==> is_under_root(root@, path@),
        r matches Ok(t) ==> t@ == relative_to_root(root@, path@),
        r matches Err(e) ==> e is TarLayoutError,
{
    proof {
        reveal_strlit("/");
    }
    let prefix = String::from_str(root).concat("/");
    assert(prefix@ == root@.push('/'));
    let n = path.unicode_len();
    let m = prefix.as_str().unicode_len();
    if n <= m || !starts_with(path, prefix.as_str()) {
        return Err(
            GenericBuildError::TarLayoutError(
                String::from_str("license path does not lie under the source root"),
            ),
        );
    }
    Ok(String::from_str(path.substring_char(m, n)))
}

/// Normalises every discovered license path against the source root, keeping
/// the order of discovery. Fails on the first path that is not under the root.
pub fn normalize_licenses(root: &str, discovered: &Vec<String>) -> (r: Result<
    Vec<String>,
    GenericBuildError,
>)
    ensures
        r is Ok <==> forall|i: int|
            0 <= i < discovered@.len() ==> is_under_root(root@, #[trigger] discovered@[i]@),
        r matches Ok(v) ==> v@.len() == discovered@.len() && forall|i: int|
            0 <= i < discovered@.len() ==> #[trigger] v@[i]@ == relative_to_root(
                root@,
                discovered@[i]@,
            ),
        r matches Err(e) ==> e is TarLayoutError,
{
    let mut out: Vec<String> = Vec::new();
    let mut i: usize = 0;
    while i < discovered.len()
        invariant
            i <= discovered@.len(),
            out@.len() == i,
            forall|j: int| 0 <= j < i ==> is_under_root(root@, #[trigger] discovered@[j]@),
            forall|j: int|
                0 <= j < i ==> #[trigger] out@[j]@ == relative_to_root(root@, discovered@[j]@),
        decreases discovered@.len() - i,
    {
        match trim_license_path(root, discovered[i].as_str()) {
            Ok(t) => {
                out.push(t);
            },
            Err(e) => {
                return Err(e);
            },
        }
        i = i + 1;
    }
    Ok(out)
}

/// Normalisation is exact: a path built as the root, a separator and a
/// non-empty relative part is accepted, and gives back that relative part.
pub proof fn lemma_trim_exact(root: Seq<char>, rel: Seq<char>)
    requires
        rel.len() > 0,
    ensures
        is_under_root(root, root.push('/') + rel),
        relative_to_root(root, root.push('/') + rel) == rel,
{
    let p = root.push('/') + rel;
    assert(p.subrange(0, root.len() + 1 as int) =~= root.push('/'));
    assert(p.subrange(root.len() + 1 as int, p.len() as int) =~= rel);
}

} // verus!
