use vstd::prelude::*;

verus! {

/// `s` without its trailing '/' separators.
pub open spec fn trim_trailing_separators(s: Seq<char>) -> Seq<char>
    decreases s.len(),
{
    if s.len() > 0 && s.last() == '/' {
        trim_trailing_separators(s.drop_last())
    } else {
        s
    }
}

/// The index of the last '/' in `s`, or -1 if there is none.
pub open spec fn last_separator_index(s: Seq<char>) -> int
    decreases s.len(),
{
    if s.len() == 0 {
        -1
    } else if s.last() == '/' {
        s.len() - 1
    } else {
        last_separator_index(s.drop_last())
    }
}

/// The parent directory of `path`, with '/' as the separator: the path up to
/// the last separator, itself stripped of trailing separators. A path that is
/// empty or consists of separators alone has no parent; a bare name's parent
/// is the empty path; a path whose only separators lead it is rooted at "/".
pub open spec fn parent_of(path: Seq<char>) -> Option<Seq<char>> {
    let t = trim_trailing_separators(path);
    if t.len() == 0 {
        None
    } else {
        let i = last_separator_index(t);
        if i == -1 {
            Some(Seq::empty())
        } else {
            let p = trim_trailing_separators(t.take(i));
            if p.len() == 0 {
                Some(seq!['/'])
            } else {
                Some(p)
            }
        }
    }
}

/// `base` joined with the relative `name`: a '/' is placed between them
/// unless `base` is empty or already ends with one.
pub open spec fn join_of(base: Seq<char>, name: Seq<char>) -> Seq<char> {
    if base.len() == 0 {
        name
    } else if base.last() == '/' {
        base + name
    } else {
        base + "/"@ + name
    }
}

/// Computes [`join_of`].
pub fn join_path(base: &str, name: &str) -> (r: String)
    ensures
        r@ == join_of(base@, name@),
{
    let n = base.unicode_len();
    if n == 0 {
        return String::from_str(name);
    }
    let c = base.get_char(n - 1);
    let mut s = String::from_str(base);
    if c != '/' {
        s.append("/");
    }
    s.append(name);
    s
}

/// Computes [`parent_of`].
pub fn parent_dir(path: &str) -> (r: Option<String>)
    ensures
        r is Some <==> parent_of(path@) is Some,
        r matches Some(p) ==> Some(p@) == parent_of(path@),
{
    let n = path.unicode_len();
    proof {
        assert(path@.take(n as int) =~= path@);
    }
    let mut e: usize = n;
    while e > 0 && path.get_char(e - 1) == '/'
        invariant
            e <= n,
            n == path@.len(),
            trim_trailing_separators(path@) == trim_trailing_separators(path@.take(e as int)),
        decreases e,
    {
        proof {
            assert(path@.take(e as int).drop_last() =~= path@.take(e as int - 1));
        }
        e -= 1;
    }
    // path@.take(e) carries no trailing separator, so it is the trimmed path
    if e == 0 {
        return None;
    }
    let ghost t = path@.take(e as int);
    proof {
        assert(trim_trailing_separators(path@) == t);
    }
    let mut i: usize = e;
    while i > 0 && path.get_char(i - 1) != '/'
        invariant
            i <= e,
            e <= n,
            n == path@.len(),
            last_separator_index(t) == last_separator_index(path@.take(i as int)),
        decreases i,
    {
        proof {
            assert(path@.take(i as int).drop_last() =~= path@.take(i as int - 1));
        }
        i -= 1;
    }
    if i == 0 {
        // no separator anywhere: the parent is the empty path
        return Some(String::new());
    }
    proof {
        assert(path@.take(i as int).last() == path@[i as int - 1]);
        assert(last_separator_index(t) == i - 1);
        assert(t.take(i as int - 1) =~= path@.take(i as int - 1));
    }
    let mut p: usize = i - 1;
    while p > 0 && path.get_char(p - 1) == '/'
        invariant
            p <= i - 1,
            i <= e,
            e <= n,
            n == path@.len(),
            trim_trailing_separators(path@.take(i as int - 1)) == trim_trailing_separators(
                path@.take(p as int),
            ),
        decreases p,
    {
        proof {
            assert(path@.take(p as int).drop_last() =~= path@.take(p as int - 1));
        }
        p -= 1;
    }
    if p == 0 {
        proof {
            broadcast use vstd::string::group_string_axioms;

            reveal_strlit("/");
            assert("/"@ =~= seq!['/']);
        }
        return Some(String::from_str("/"));
    }
    let result = String::from_str(path.substring_char(0, p));
    proof {
        assert(result@ == path@.take(p as int));
    }
    Some(result)
}

} // verus!
