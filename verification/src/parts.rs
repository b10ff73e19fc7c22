use vstd::prelude::*;

verus! {

/// A path component that names the current or the parent directory rather
/// than an entry of its own.
pub open spec fn is_special(c: Seq<char>) -> bool {
    c == seq!['.'] || c == seq!['.', '.']
}

/// Helper for `split_path`: the components of `s` from position `i` on,
/// where the component currently being read began at `start`.
pub open spec fn split_path_from(s: Seq<char>, start: int, i: int) -> Seq<Seq<char>>
    decreases s.len() - i,
{
    if !(0 <= start <= i <= s.len()) {
        seq![]
    } else if i == s.len() {
        if start < i {
            seq![s.subrange(start, i)]
        } else {
            seq![]
        }
    } else if s[i] == '/' {
        (if start < i {
            seq![s.subrange(start, i)]
        } else {
            seq![]
        }) + split_path_from(s, i + 1, i + 1)
    } else {
        split_path_from(s, start, i + 1)
    }
}

/// The components of a path string: the maximal non-empty runs of characters
/// between `/` separators.
pub open spec fn split_path(s: Seq<char>) -> Seq<Seq<char>> {
    split_path_from(s, 0, 0)
}

/// Drop the `.` and `..` components from a component list.
pub open spec fn drop_special(parts: Seq<Seq<char>>) -> Seq<Seq<char>>
    decreases parts.len(),
{
    if parts.len() == 0 {
        seq![]
    } else if is_special(parts[0]) {
        drop_special(parts.drop_first())
    } else {
        seq![parts[0]] + drop_special(parts.drop_first())
    }
}

/// The components a caller-supplied fragment stands for: split on `/`, with
/// empty, `.` and `..` components dropped.
pub open spec fn fragment_parts(s: Seq<char>) -> Seq<Seq<char>> {
    drop_special(split_path(s))
}

/// Split an executable path string into its components.
pub fn split_components(s: &str) -> (r: Vec<String>)
    ensures
        r.deep_view() == split_path(s@),
{
    let n: usize = s.unicode_len();
    let mut r: Vec<String> = Vec::new();
    let mut start: usize = 0;
    let mut i: usize = 0;
    while i < n
        invariant
            start <= i <= n,
            n == s@.len(),
            r.deep_view() + split_path_from(s@, start as int, i as int) == split_path(s@),
        decreases n - i,
    {
        let c = s.get_char(i);
        if c == '/' {
            if start < i {
                let ghost prev = r.deep_view();
                let part = s.substring_char(start, i).to_owned();
                r.push(part);
                proof {
                    assert(r.deep_view() =~= prev.push(s@.subrange(start as int, i as int)));
                }
            }
            start = i + 1;
        }
        i = i + 1;
    }
    if start < n {
        let ghost prev = r.deep_view();
        let part = s.substring_char(start, n).to_owned();
        r.push(part);
        proof {
            assert(r.deep_view() =~= prev.push(s@.subrange(start as int, n as int)));
        }
    }
    proof {
        assert(r.deep_view() =~= split_path(s@));
    }
    r
}

/// Whether an executable component is the literal `.` or `..`.
pub fn is_special_component(c: &String) -> (b: bool)
    ensures
        b == is_special(c@),
{
    let cs: &str = c.as_str();
    let n: usize = cs.unicode_len();
    if n == 1 {
        let b = cs.get_char(0) == '.';
        proof {
            if b {
                assert(c@ =~= seq!['.']);
            } else {
                assert(c@ != seq!['.']) by {
                    assert(c@[0] != seq!['.'][0]);
                }
                assert(c@.len() != seq!['.', '.'].len());
            }
        }
        b
    } else if n == 2 {
        let b = cs.get_char(0) == '.' && cs.get_char(1) == '.';
        proof {
            if b {
                assert(c@ =~= seq!['.', '.']);
            } else {
                assert(c@ != seq!['.', '.']) by {
                    if c@ == seq!['.', '.'] {
                        assert(c@[0] == '.' && c@[1] == '.');
                    }
                }
                assert(c@.len() != seq!['.'].len());
            }
        }
        b
    } else {
        proof {
            assert(c@.len() != seq!['.'].len());
            assert(c@.len() != seq!['.', '.'].len());
        }
        false
    }
}

/// The components a fragment stands for, executably.
pub fn fragment_components(s: &str) -> (r: Vec<String>)
    ensures
        r.deep_view() == fragment_parts(s@),
{
    let parts = split_components(s);
    let mut r: Vec<String> = Vec::new();
    let mut i: usize = 0;
    proof {
        assert(parts.deep_view().skip(0) =~= parts.deep_view());
        assert(r.deep_view() =~= Seq::<Seq<char>>::empty());
        assert(Seq::<Seq<char>>::empty() + drop_special(parts.deep_view()) =~= drop_special(
            parts.deep_view(),
        ));
    }
    while i < parts.len()
        invariant
            i <= parts@.len(),
            parts.deep_view() == split_path(s@),
            r.deep_view() + drop_special(parts.deep_view().skip(i as int)) == fragment_parts(s@),
        decreases parts@.len() - i,
    {
        let ghost rest = parts.deep_view().skip(i as int);
        proof {
            assert(rest[0] == parts.deep_view()[i as int]);
            assert(rest.drop_first() =~= parts.deep_view().skip(i as int + 1));
        }
        let p = &parts[i];
        proof {
            assert(p@ == parts.deep_view()[i as int]);
        }
        if !is_special_component(p) {
            let ghost prev = r.deep_view();
            r.push(p.clone());
            proof {
                assert(r.deep_view() =~= prev.push(p@));
                assert(prev.push(p@) =~= prev + seq![p@]);
            }
        }
        i = i + 1;
    }
    proof {
        assert(parts.deep_view().skip(parts@.len() as int) =~= Seq::<Seq<char>>::empty());
        assert(r.deep_view() =~= fragment_parts(s@));
    }
    r
}

/// Whether an entry's file name marks it as hidden: it starts with a dot.
pub fn is_hidden(name: &str) -> (b: bool)
    ensures
        b == (name@.len() > 0 && name@[0] == '.'),
{
    if name.unicode_len() > 0 {
        name.get_char(0) == '.'
    } else {
        false
    }
}

} // verus!
