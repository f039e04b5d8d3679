use vstd::prelude::*;
use crate::text::push_char;

verus! {

/// `name` inside directory `dir`, joined by a single `/`; an empty `dir`
/// stands for the starting directory and gives `name` alone.
pub open spec fn joined(dir: Seq<char>, name: Seq<char>) -> Seq<char> {
    if dir.len() > 0 && dir.last() == '/' {
        dir + name
    } else if dir.len() == 0 {
        name
    } else {
        dir + seq!['/'] + name
    }
}

/// The path of `name` inside `dir`.
pub fn join_path(dir: &str, name: &str) -> (r: String)
    ensures
        r@ == joined(dir@, name@),
{
    let n = dir.unicode_len();
    if n > 0 && dir.get_char(n - 1) == '/' {
        String::from_str(dir).concat(name)
    } else if n == 0 {
        String::from_str(name)
    } else {
        let mut s = String::from_str(dir);
        push_char(&mut s, '/');
        s.concat(name)
    }
}

/// Length of `s[..n]` once trailing `/` are removed.
pub open spec fn trimmed_len(s: Seq<char>, n: int) -> int
    decreases n,
{
    if n > 0 && s[n - 1] == '/' {
        trimmed_len(s, n - 1)
    } else {
        n
    }
}

/// Index of the last `/` in `s[..n]`, or -1.
pub open spec fn last_slash(s: Seq<char>, n: int) -> int
    decreases n,
{
    if n <= 0 {
        -1
    } else if s[n - 1] == '/' {
        n - 1
    } else {
        last_slash(s, n - 1)
    }
}

/// The directory above `path`, trailing `/` ignored: `/` for a top-level
/// entry, nothing when the path is empty, all slashes, or has no `/` left.
pub open spec fn parent_of(path: Seq<char>) -> Option<Seq<char>> {
    let t = trimmed_len(path, path.len() as int);
    let k = last_slash(path, t);
    if t == 0 || k < 0 {
        None
    } else if k == 0 {
        Some(seq!['/'])
    } else {
        Some(path.subrange(0, k))
    }
}

/// The directory above `path`, if there is one to go to.
pub fn parent_path(path: &str) -> (r: Option<String>)
    ensures
        r.is_none() == parent_of(path@).is_none(),
        r.is_some() ==> r.unwrap()@ == parent_of(path@).unwrap(),
{
    let len = path.unicode_len();
    let mut t: usize = len;
    while t > 0 && path.get_char(t - 1) == '/'
        invariant
            len == path@.len(),
            t <= len,
            trimmed_len(path@, len as int) == trimmed_len(path@, t as int),
        decreases t,
    {
        t -= 1;
    }
    if t == 0 {
        return None;
    }
    let mut k: usize = t;
    while k > 0 && path.get_char(k - 1) != '/'
        invariant
            len == path@.len(),
            k <= t <= len,
            last_slash(path@, t as int) == last_slash(path@, k as int),
        decreases k,
    {
        k -= 1;
    }
    if k == 0 {
        return None;
    }
    let idx = k - 1;
    if idx == 0 {
        let mut s = String::new();
        push_char(&mut s, '/');
        assert(s@ =~= seq!['/']);
        Some(s)
    } else {
        Some(String::from_str(path.substring_char(0, idx)))
    }
}

} // verus!
