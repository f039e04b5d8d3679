use vstd::prelude::*;
use crate::text::chars_of;

verus! {

/// Anchored glob matching of a whole name: `*` stands for any run of
/// characters (possibly empty), `?` for exactly one character, and every
/// other character for itself.
pub open spec fn glob_match(name: Seq<char>, pat: Seq<char>) -> bool
    decreases name.len() + pat.len(),
{
    if pat.len() == 0 {
        name.len() == 0
    } else if pat[0] == '*' {
        glob_match(name, pat.drop_first()) || (name.len() > 0 && glob_match(
            name.drop_first(),
            pat,
        ))
    } else if name.len() == 0 {
        false
    } else if pat[0] == '?' || pat[0] == name[0] {
        glob_match(name.drop_first(), pat.drop_first())
    } else {
        false
    }
}

/// Whether `name` as a whole matches the glob `pattern`.
pub fn matches_pattern(name: &str, pattern: &str) -> (r: bool)
    ensures
        r == glob_match(name@, pattern@),
{
    let ns = chars_of(name);
    let ps = chars_of(pattern);
    let n = ns.len();
    let p = ps.len();
    // next[i] tells whether name[i..] matches pattern[j..]
    let mut next: Vec<bool> = Vec::new();
    let mut k: usize = 0;
    while k < n
        invariant
            n == ns@.len(),
            k <= n,
            next@.len() == k,
            forall|i: int| 0 <= i < k ==> next@[i] == (i == n),
        decreases n - k,
    {
        next.push(false);
        k += 1;
    }
    next.push(true);
    assert forall|i: int| 0 <= i <= n implies next@[i] == glob_match(
        ns@.subrange(i, n as int),
        ps@.subrange(p as int, p as int),
    ) by {
        assert(ps@.subrange(p as int, p as int).len() == 0);
    }
    let mut j: usize = p;
    while j > 0
        invariant
            n == ns@.len(),
            p == ps@.len(),
            j <= p,
            next@.len() == n + 1,
            forall|i: int|
                0 <= i <= n ==> next@[i] == glob_match(
                    ns@.subrange(i, n as int),
                    ps@.subrange(j as int, p as int),
                ),
        decreases j,
    {
        j -= 1;
        let pc = ps[j];
        let mut cur: Vec<bool> = Vec::new();
        let mut k: usize = 0;
        while k < n
            invariant
                k <= n,
                cur@.len() == k,
            decreases n - k,
        {
            cur.push(false);
            k += 1;
        }
        // the empty rest of the name matches only a pattern rest of stars
        let last = pc == '*' && next[n];
        proof {
            let sn = ns@.subrange(n as int, n as int);
            let sp = ps@.subrange(j as int, p as int);
            assert(sp.drop_first() =~= ps@.subrange(j + 1, p as int));
            assert(sn.len() == 0);
            assert(last == glob_match(sn, sp));
        }
        cur.push(last);
        let mut i: usize = n;
        while i > 0
            invariant
                n == ns@.len(),
                p == ps@.len(),
                j < p,
                pc == ps@[j as int],
                i <= n,
                cur@.len() == n + 1,
                next@.len() == n + 1,
                forall|m: int|
                    0 <= m <= n ==> next@[m] == glob_match(
                        ns@.subrange(m, n as int),
                        ps@.subrange(j + 1, p as int),
                    ),
                forall|m: int|
                    i <= m <= n ==> cur@[m] == glob_match(
                        ns@.subrange(m, n as int),
                        ps@.subrange(j as int, p as int),
                    ),
            decreases i,
        {
            i -= 1;
            let v = if pc == '*' {
                next[i] || cur[i + 1]
            } else {
                (pc == '?' || pc == ns[i]) && next[i + 1]
            };
            proof {
                let sn = ns@.subrange(i as int, n as int);
                let sp = ps@.subrange(j as int, p as int);
                assert(sp.drop_first() =~= ps@.subrange(j + 1, p as int));
                assert(sn.drop_first() =~= ns@.subrange(i + 1, n as int));
                assert(v == glob_match(sn, sp));
            }
            cur.set(i, v);
        }
        next = cur;
    }
    assert(ns@.subrange(0, n as int) =~= name@);
    assert(ps@.subrange(0, p as int) =~= pattern@);
    next[0]
}

} // verus!

verus! {

/// A `*` stands for any run of characters: a name matches `*` followed by
/// `rest` exactly when one of its suffixes matches `rest`.
pub proof fn star_matches_any_run(name: Seq<char>, rest: Seq<char>)
    ensures
        glob_match(name, seq!['*'] + rest) <==> exists|k: int|
            0 <= k <= name.len() && #[trigger] glob_match(name.subrange(k, name.len() as int), rest),
    decreases name.len(),
{
    let p = seq!['*'] + rest;
    assert(p.drop_first() =~= rest);
    assert(p[0] == '*');
    assert(name.subrange(0, name.len() as int) =~= name);
    if glob_match(name, rest) {
        assert(glob_match(name.subrange(0, name.len() as int), rest));
    }
    if name.len() == 0 {
        if exists|k: int| 0 <= k <= name.len() && #[trigger] glob_match(name.subrange(k, name.len() as int), rest) {
            let k = choose|k: int| 0 <= k <= name.len() && #[trigger] glob_match(name.subrange(k, name.len() as int), rest);
            assert(k == 0);
            assert(glob_match(name, rest));
        }
    } else {
        let t = name.drop_first();
        star_matches_any_run(t, rest);
        if glob_match(name, p) {
            if !glob_match(name, rest) {
                assert(glob_match(t, p));
                let k = choose|k: int| 0 <= k <= t.len() && #[trigger] glob_match(t.subrange(k, t.len() as int), rest);
                assert(t.subrange(k, t.len() as int) =~= name.subrange(k + 1, name.len() as int));
                assert(glob_match(name.subrange(k + 1, name.len() as int), rest));
            }
        }
        if exists|k: int| 0 <= k <= name.len() && #[trigger] glob_match(name.subrange(k, name.len() as int), rest) {
            let k = choose|k: int| 0 <= k <= name.len() && #[trigger] glob_match(name.subrange(k, name.len() as int), rest);
            if k > 0 {
                assert(t.subrange(k - 1, t.len() as int) =~= name.subrange(k, name.len() as int));
                assert(glob_match(t.subrange(k - 1, t.len() as int), rest));
                assert(glob_match(t, p));
            } else {
                assert(glob_match(name, rest));
            }
        }
    }
}

/// A `?` stands for exactly one character: a name matches `?` followed by
/// `rest` exactly when it is not empty and the rest of it matches `rest`.
pub proof fn question_matches_one_char(name: Seq<char>, rest: Seq<char>)
    ensures
        glob_match(name, seq!['?'] + rest) <==> (name.len() > 0 && glob_match(name.drop_first(), rest)),
{
    let p = seq!['?'] + rest;
    assert(p.drop_first() =~= rest);
    assert(p[0] == '?');
}

} // verus!
