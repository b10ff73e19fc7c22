use crate::errors::FixtureError;
use vstd::prelude::*;

verus! {

/// The rendered form of an anchor path: `.` followed by one `/..` per
/// ascend step.
pub open spec fn ascend_string(n: int) -> Seq<char>
    decreases n,
{
    if n <= 0 {
        seq!['.']
    } else {
        ascend_string(n - 1) + seq!['/', '.', '.']
    }
}

/// The offset from a working directory to a named ancestor, counted in
/// ascend-one-level steps. Zero steps means the working directory itself is
/// the anchor.
#[derive(Clone, Copy, Debug, PartialEq, Eq, Structural)]
pub struct AnchorPath {
    pub ups: usize,
}

impl AnchorPath {
    /// Render the anchor as a relative path string: `.`, `./..`, `./../..`, ...
    pub fn to_path_string(&self) -> (s: String)
        ensures
            s@ == ascend_string(self.ups as int),
    {
        let mut s = String::from_str(".");
        proof {
            reveal_strlit(".");
            assert(s@ =~= ascend_string(0));
        }
        let mut i: usize = 0;
        while i < self.ups
            invariant
                i <= self.ups,
                s@ == ascend_string(i as int),
            decreases self.ups - i,
        {
            s.append("/..");
            proof {
                reveal_strlit("/..");
                assert(("/.."@) =~= seq!['/', '.', '.']);
                assert(s@ =~= ascend_string(i + 1));
            }
            i = i + 1;
        }
        s
    }
}

/// Whether a directory name appears among some path's components.
pub open spec fn name_in_parts(parts: Seq<Seq<char>>, name: Seq<char>) -> bool {
    exists|j: int| 0 <= j < parts.len() && parts[j] == name
}

/// Walk the working directory's components from the innermost outward and
/// count ascend steps until one equals `root_name`. The count is exact: no
/// component nearer the working directory matches. When no component
/// matches at all, the root is not found.
pub fn find_root(cwd_parts: &Vec<String>, root_name: &str) -> (r: Result<
    AnchorPath,
    FixtureError,
>)
    ensures
        match r {
            Ok(a) => ({
                &&& a.ups < cwd_parts@.len()
                &&& cwd_parts.deep_view()[cwd_parts@.len() - 1 - a.ups] == root_name@
                &&& forall|j: int|
                    cwd_parts@.len() - a.ups <= j < cwd_parts@.len()
                        ==> #[trigger] cwd_parts.deep_view()[j] != root_name@
            }),
            Err(e) => ({
                &&& e == FixtureError::RootNotFound
                &&& !name_in_parts(cwd_parts.deep_view(), root_name@)
            }),
        },
{
    let root_string: String = root_name.to_owned();
    let n: usize = cwd_parts.len();
    let mut ups: usize = 0;
    while ups < n
        invariant
            ups <= n,
            n == cwd_parts@.len(),
            root_string@ == root_name@,
            forall|j: int| n - ups <= j < n ==> #[trigger] cwd_parts.deep_view()[j] != root_name@,
        decreases n - ups,
    {
        let idx: usize = n - 1 - ups;
        proof {
            assert(cwd_parts.deep_view()[idx as int] == cwd_parts@[idx as int]@);
        }
        if cwd_parts[idx] == root_string {
            return Ok(AnchorPath { ups });
        }
        ups = ups + 1;
    }
    proof {
        assert(!name_in_parts(cwd_parts.deep_view(), root_name@));
    }
    Err(FixtureError::RootNotFound)
}

} // verus!
