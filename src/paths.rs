use vstd::prelude::*;
use crate::rpc::text;

verus! {

/// The directory that holds `p`, as `std::path::Path::parent` gives it.
pub uninterp spec fn parent_of(p: Seq<char>) -> Option<Seq<char>>;

/// `name` joined onto the directory `dir`, as `std::path::Path::join` gives it.
pub uninterp spec fn joined(dir: Seq<char>, name: Seq<char>) -> Seq<char>;

/// Relies on std::path::Path::parent: the path without its last component,
/// which is a shorter path; none for the empty path, a root or a prefix.
#[verifier::external_body]
fn parent(p: &str) -> (r: Option<String>)
    ensures
        match r {
            Some(d) => parent_of(p@) == Some(d@) && d@.len() < p@.len(),
            None => parent_of(p@) is None,
        },
        p@.len() == 0 ==> r is None,
{
    std::path::Path::new(p).parent().and_then(|d| d.to_str()).map(String::from)
}

/// Relies on std::path::Path::join: `name` appended to `dir` as a path.
#[verifier::external_body]
fn join(dir: &str, name: &str) -> (r: String)
    ensures
        r@ == joined(dir@, name@),
{
    std::path::Path::new(dir).join(name).to_string_lossy().into_owned()
}

pub open spec fn manifest_name() -> Seq<char> {
    "Cargo.toml"@
}

pub open spec fn artifact_location() -> Seq<char> {
    "target/ink/flipper.polkavm"@
}

/// The `k`-th directory above `p`: its parent for 0, that one's parent for
/// 1, and so on, as long as there is one.
pub open spec fn ancestor(p: Seq<char>, k: nat) -> Option<Seq<char>>
    decreases k,
{
    if k == 0 {
        parent_of(p)
    } else {
        match ancestor(p, (k - 1) as nat) {
            Some(d) => parent_of(d),
            None => None,
        }
    }
}

/// Whether the test `has_file` answered `answer` for the path `path`.
pub open spec fn answered<F: Fn(String) -> bool>(has_file: F, path: Seq<char>, answer: bool) -> bool {
    exists|s: String| s@ == path && #[trigger] has_file.ensures((s,), answer)
}

/// Whether `has_file` found no `Cargo.toml` in `dir`, where there is one.
pub open spec fn no_manifest<F: Fn(String) -> bool>(has_file: F, dir: Option<Seq<char>>) -> bool {
    match dir {
        Some(d) => answered(has_file, joined(d, manifest_name()), false),
        None => true,
    }
}

/// Whether the directory of the source file is a path that is not empty.
pub open spec fn has_directory(src: Seq<char>) -> bool {
    ancestor(src, 0) matches Some(d0) && d0.len() > 0
}

/// Whether `d` is the project root of `src` as `has_file` answered: the
/// nearest directory above it with a `Cargo.toml`.
pub open spec fn is_root<F: Fn(String) -> bool>(src: Seq<char>, has_file: F, d: Seq<char>) -> bool {
    &&& has_directory(src)
    &&& exists|k: nat| {
        &&& #[trigger] ancestor(src, k) == Some(d)
        &&& answered(has_file, joined(d, manifest_name()), true)
        &&& forall|j: nat| j < k ==> no_manifest(has_file, #[trigger] ancestor(src, j))
    }
}

/// Whether `src` has no project root as `has_file` answered.
pub open spec fn no_root<F: Fn(String) -> bool>(src: Seq<char>, has_file: F) -> bool {
    !has_directory(src) || forall|k: nat| no_manifest(has_file, #[trigger] ancestor(src, k))
}

/// Finds the project root above a source file: the nearest directory above
/// it in which `has_file` finds a `Cargo.toml`. A file whose directory is the
/// empty path has no root.
pub fn find_root<F: Fn(String) -> bool>(rust_src: &str, has_file: &F) -> (r: Option<String>)
    requires
        forall|s: String| has_file.requires((s,)),
    ensures
        match r {
            Some(d) => is_root(rust_src@, *has_file, d@),
            None => no_root(rust_src@, *has_file),
        },
        rust_src@.len() == 0 ==> r is None,
{
    let mut current = match parent(rust_src) {
        Some(d) => d,
        None => {
            return None;
        },
    };
    if current.unicode_len() == 0 {
        return None;
    }
    let name = text("Cargo.toml");
    let ghost mut k: nat = 0;
    loop
        invariant
            forall|s: String| has_file.requires((s,)),
            name@ == manifest_name(),
            ancestor(rust_src@, k) == Some(current@),
            has_directory(rust_src@),
            rust_src@.len() > 0,
            forall|j: nat| j < k ==> no_manifest(*has_file, #[trigger] ancestor(rust_src@, j)),
        decreases current@.len(),
    {
        let candidate = join(current.as_str(), name.as_str());
        if has_file(candidate) {
            assert(answered(*has_file, joined(current@, manifest_name()), true));
            assert(is_root(rust_src@, *has_file, current@));
            return Some(current);
        }
        assert(answered(*has_file, joined(current@, manifest_name()), false));
        match parent(current.as_str()) {
            Some(d) => {
                proof {
                    assert(ancestor(rust_src@, k + 1) == parent_of(current@));
                    k = k + 1;
                }
                current = d;
            },
            None => {
                proof {
                    assert forall|j: nat| no_manifest(*has_file, #[trigger] ancestor(rust_src@, j)) by {
                        if j > k {
                            lemma_ancestors_end(rust_src@, k, j);
                        }
                    }
                }
                return None;
            },
        }
    }
}

/// Past a directory without a parent there are no more ancestors.
proof fn lemma_ancestors_end(p: Seq<char>, k: nat, j: nat)
    requires
        ancestor(p, k) matches Some(d) && parent_of(d) is None,
        j > k,
    ensures
        ancestor(p, j) is None,
    decreases j,
{
    if j > k + 1 {
        lemma_ancestors_end(p, k, (j - 1) as nat);
    }
}

/// Finds the compiled contract of the project that holds a source file:
/// `target/ink/flipper.polkavm` under its root, if `has_file` finds it there.
pub fn find_polkavm<F: Fn(String) -> bool>(rust_src: &str, has_file: &F) -> (r: Option<String>)
    requires
        forall|s: String| has_file.requires((s,)),
    ensures
        match r {
            Some(p) => exists|root: Seq<char>| {
                &&& #[trigger] is_root(rust_src@, *has_file, root)
                &&& p@ == joined(root, artifact_location())
                &&& answered(*has_file, p@, true)
            },
            None => no_root(rust_src@, *has_file) || exists|root: Seq<char>| {
                &&& #[trigger] is_root(rust_src@, *has_file, root)
                &&& answered(*has_file, joined(root, artifact_location()), false)
            },
        },
        rust_src@.len() == 0 ==> r is None,
{
    let root = match find_root(rust_src, has_file) {
        Some(root) => root,
        None => {
            return None;
        },
    };
    let candidate = join(root.as_str(), "target/ink/flipper.polkavm");
    let probe = candidate.clone();
    let ghost c = probe;
    if has_file(probe) {
        proof {
            assert(answered(*has_file, c@, true));
            assert(is_root(rust_src@, *has_file, root@));
        }
        Some(candidate)
    } else {
        proof {
            assert(answered(*has_file, c@, false));
            assert(is_root(rust_src@, *has_file, root@));
        }
        None
    }
}

} // verus!
