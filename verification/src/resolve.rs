use crate::anchor::{name_in_parts, AnchorPath};
use crate::errors::FixtureError;
use crate::parts::{fragment_components, fragment_parts, split_components, split_path};
use vstd::prelude::*;

verus! {

/// Whether the trailing window of an entry's components holds every
/// fragment component. The window is the entry's last `frag.len()`
/// components; each fragment component must appear somewhere in it, in any
/// order.
pub open spec fn window_matches(entry_parts: Seq<Seq<char>>, frag: Seq<Seq<char>>) -> bool {
    &&& entry_parts.len() >= frag.len()
    &&& forall|i: int|
        0 <= i < frag.len() ==> entry_parts.skip(entry_parts.len() - frag.len()).contains(
            #[trigger] frag[i],
        )
}

/// Whether an entry path matches a fragment: split both into components and
/// test the fragment's components against the entry's trailing window.
pub open spec fn entry_matches(entry: Seq<char>, fragment: Seq<char>) -> bool {
    window_matches(split_path(entry), fragment_parts(fragment))
}

/// The matching test is order-insensitive: two fragments made of the same
/// components, in any order, match exactly the same entries.
pub proof fn lemma_match_order_insensitive(
    entry_parts: Seq<Seq<char>>,
    f1: Seq<Seq<char>>,
    f2: Seq<Seq<char>>,
)
    requires
        f1.to_multiset() == f2.to_multiset(),
    ensures
        window_matches(entry_parts, f1) == window_matches(entry_parts, f2),
{
    if window_matches(entry_parts, f1) {
        lemma_match_permuted(entry_parts, f1, f2);
    }
    if window_matches(entry_parts, f2) {
        lemma_match_permuted(entry_parts, f2, f1);
    }
}

/// One direction of order-insensitivity: a match carries over to a
/// reordered fragment.
proof fn lemma_match_permuted(entry_parts: Seq<Seq<char>>, f1: Seq<Seq<char>>, f2: Seq<Seq<char>>)
    requires
        f1.to_multiset() == f2.to_multiset(),
        window_matches(entry_parts, f1),
    ensures
        window_matches(entry_parts, f2),
{
    f1.to_multiset_ensures();
    f2.to_multiset_ensures();
    assert(f1.len() == f1.to_multiset().len());
    assert(f2.len() == f2.to_multiset().len());
    assert forall|i: int|
        0 <= i < f2.len() implies entry_parts.skip(entry_parts.len() - f2.len()).contains(
        #[trigger] f2[i],
    ) by {
        assert(f2.contains(f2[i]));
        assert(f2.to_multiset().count(f2[i]) > 0);
        assert(f1.to_multiset().count(f2[i]) > 0);
        assert(f1.contains(f2[i]));
        let j = choose|j: int| 0 <= j < f1.len() && f1[j] == f2[i];
        assert(entry_parts.skip(entry_parts.len() - f1.len()).contains(f1[j]));
    }
}

/// An entry whose components end with the fragment's components, verbatim
/// and in order, matches the fragment.
pub proof fn lemma_suffix_matches(entry_parts: Seq<Seq<char>>, frag: Seq<Seq<char>>)
    requires
        entry_parts.len() >= frag.len(),
        entry_parts.skip(entry_parts.len() - frag.len()) == frag,
    ensures
        window_matches(entry_parts, frag),
{
    assert forall|i: int|
        0 <= i < frag.len() implies entry_parts.skip(entry_parts.len() - frag.len()).contains(
        #[trigger] frag[i],
    ) by {
        assert(frag[i] == entry_parts.skip(entry_parts.len() - frag.len())[i]);
    }
}

/// Whether some component in `parts`, at index `from` or beyond, equals
/// `target`.
fn tail_contains(parts: &Vec<String>, from: usize, target: &String) -> (b: bool)
    requires
        from <= parts@.len(),
    ensures
        b == parts.deep_view().skip(from as int).contains(target@),
{
    let ghost window = parts.deep_view().skip(from as int);
    let mut j: usize = from;
    while j < parts.len()
        invariant
            from <= j <= parts@.len(),
            window == parts.deep_view().skip(from as int),
            forall|t: int| from <= t < j ==> #[trigger] parts.deep_view()[t] != target@,
        decreases parts@.len() - j,
    {
        proof {
            assert(parts.deep_view()[j as int] == parts@[j as int]@);
        }
        if parts[j] == *target {
            proof {
                assert(window[j - from] == target@);
            }
            return true;
        }
        j = j + 1;
    }
    proof {
        assert forall|k: int| 0 <= k < window.len() implies window[k] != target@ by {
            assert(parts.deep_view()[from + k] != target@);
        }
    }
    false
}

/// Whether an executable entry path matches already-split fragment
/// components.
pub fn matches_entry(entry: &str, frag_parts: &Vec<String>) -> (b: bool)
    ensures
        b == window_matches(split_path(entry@), frag_parts.deep_view()),
{
    let entry_parts = split_components(entry);
    let k: usize = frag_parts.len();
    if entry_parts.len() < k {
        return false;
    }
    let from: usize = entry_parts.len() - k;
    let mut i: usize = 0;
    while i < k
        invariant
            i <= k,
            k == frag_parts@.len(),
            from == entry_parts@.len() - k,
            entry_parts.deep_view() == split_path(entry@),
            forall|t: int|
                0 <= t < i ==> entry_parts.deep_view().skip(from as int).contains(
                    #[trigger] frag_parts.deep_view()[t],
                ),
        decreases k - i,
    {
        proof {
            assert(frag_parts.deep_view()[i as int] == frag_parts@[i as int]@);
        }
        if !tail_contains(&entry_parts, from, &frag_parts[i]) {
            return false;
        }
        i = i + 1;
    }
    true
}

/// Search a list of entry paths for one that matches the fragment. On a
/// match the fragment itself comes back, unchanged: the search confirms
/// existence, it does not rewrite the fragment.
pub fn resolve_in(entries: &Vec<String>, fragment: &str) -> (r: Option<String>)
    ensures
        match r {
            Some(s) => ({
                &&& s@ == fragment@
                &&& exists|i: int|
                    0 <= i < entries@.len() && entry_matches(
                        #[trigger] entries.deep_view()[i],
                        fragment@,
                    )
            }),
            None => forall|i: int|
                0 <= i < entries@.len() ==> !entry_matches(
                    #[trigger] entries.deep_view()[i],
                    fragment@,
                ),
        },
{
    let frag = fragment_components(fragment);
    let mut i: usize = 0;
    while i < entries.len()
        invariant
            i <= entries@.len(),
            frag.deep_view() == fragment_parts(fragment@),
            forall|t: int|
                0 <= t < i ==> !entry_matches(#[trigger] entries.deep_view()[t], fragment@),
        decreases entries@.len() - i,
    {
        proof {
            assert(entries.deep_view()[i as int] == entries@[i as int]@);
        }
        if matches_entry(entries[i].as_str(), &frag) {
            return Some(fragment.to_owned());
        }
        i = i + 1;
    }
    None
}

/// Relies on walkdir::WalkDir: walks the directory tree under `root` and
/// yields each visited entry's path, the root itself included; entries that
/// cannot be read are skipped. Which paths come back depends on the
/// filesystem, so nothing is promised of the result.
#[verifier::external_body]
fn walk_entries(root: &String) -> Vec<String> {
    walkdir::WalkDir::new(root.as_str())
        .into_iter()
        .filter_map(|e| e.ok())
        .map(|e| e.path().to_string_lossy().into_owned())
        .collect()
}

/// A fragment resolver anchored at a named ancestor of the working
/// directory.
pub struct PathManage {
    pub root: AnchorPath,
}

impl PathManage {
    /// Anchor a resolver: find `root_name` in the working directory's
    /// components, innermost match first.
    pub fn new(cwd_parts: &Vec<String>, root_name: &str) -> (r: Result<PathManage, FixtureError>)
        ensures
            match r {
                Ok(pm) => ({
                    &&& pm.root.ups < cwd_parts@.len()
                    &&& cwd_parts.deep_view()[cwd_parts@.len() - 1 - pm.root.ups] == root_name@
                    &&& forall|j: int|
                        cwd_parts@.len() - pm.root.ups <= j < cwd_parts@.len()
                            ==> #[trigger] cwd_parts.deep_view()[j] != root_name@
                }),
                Err(e) => ({
                    &&& e == FixtureError::RootNotFound
                    &&& !name_in_parts(cwd_parts.deep_view(), root_name@)
                }),
            },
    {
        match crate::anchor::find_root(cwd_parts, root_name) {
            Ok(a) => Ok(PathManage { root: a }),
            Err(e) => Err(e),
        }
    }

    /// Resolve a fragment against the anchor's subtree. What is on disk is
    /// outside this crate's reach, so all that is promised is that a
    /// successful resolution hands the fragment back unchanged.
    pub fn path(&self, fragment: &str) -> (r: Option<String>)
        ensures
            r matches Some(s) ==> s@ == fragment@,
    {
        let root_str = self.root.to_path_string();
        let entries = walk_entries(&root_str);
        resolve_in(&entries, fragment)
    }
}

/// The path half of a fixture load: anchor at `root_name`, then resolve the
/// fragment under it. A missing root surfaces as `RootNotFound`; an
/// unresolved fragment surfaces as `FragmentUnresolved`, before any file is
/// touched. No other error can come out of this stage.
pub fn resolve_fixture_path(cwd_parts: &Vec<String>, root_name: &str, fragment: &str) -> (r: Result<
    String,
    FixtureError,
>)
    ensures
        match r {
            Ok(s) => ({
                &&& s@ == fragment@
                &&& name_in_parts(cwd_parts.deep_view(), root_name@)
            }),
            Err(FixtureError::RootNotFound) => !name_in_parts(cwd_parts.deep_view(), root_name@),
            Err(FixtureError::FragmentUnresolved) => name_in_parts(
                cwd_parts.deep_view(),
                root_name@,
            ),
            Err(_) => false,
        },
{
    let manager = match PathManage::new(cwd_parts, root_name) {
        Ok(pm) => pm,
        Err(e) => {
            return Err(e);
        },
    };
    match manager.path(fragment) {
        Some(found) => Ok(found),
        None => Err(FixtureError::FragmentUnresolved),
    }
}

} // verus!
