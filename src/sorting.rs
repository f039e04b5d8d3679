use vstd::prelude::*;
use crate::model::{FileEntry, SortColumn, SortDirection};

verus! {

/// Lexicographic order on character sequences, by code point. On text this
/// is the order of `String`'s `Ord`, which compares UTF-8 bytes.
pub open spec fn lex_le(a: Seq<char>, b: Seq<char>) -> bool
    decreases a.len(),
{
    if a.len() == 0 {
        true
    } else if b.len() == 0 {
        false
    } else if (a[0] as u32) < (b[0] as u32) {
        true
    } else if (a[0] as u32) > (b[0] as u32) {
        false
    } else {
        lex_le(a.drop_first(), b.drop_first())
    }
}

/// `a` comes no later than `b` when ordering by `col`, ascending.
pub open spec fn key_le(a: FileEntry, b: FileEntry, col: SortColumn) -> bool {
    match col {
        SortColumn::Permission => lex_le(a.perm@, b.perm@),
        SortColumn::Size => a.size <= b.size,
        SortColumn::Date => lex_le(a.date@, b.date@),
        SortColumn::Name => lex_le(a.name@, b.name@),
        SortColumn::Unsorted => true,
    }
}

/// `a` may stand before `b` in a table ordered by `col` and `dir`.
pub open spec fn in_order(a: FileEntry, b: FileEntry, col: SortColumn, dir: SortDirection) -> bool {
    match dir {
        SortDirection::Asc => key_le(a, b, col),
        SortDirection::Desc => key_le(b, a, col),
    }
}

/// Inserts `x` into `t` after the last entry that may stand before it.
pub open spec fn insert_entry(t: Seq<FileEntry>, x: FileEntry, col: SortColumn, dir: SortDirection) -> Seq<FileEntry>
    decreases t.len(),
{
    if t.len() == 0 || in_order(t.last(), x, col, dir) {
        t.push(x)
    } else {
        insert_entry(t.drop_last(), x, col, dir).push(t.last())
    }
}

/// Stable ordering of `s` by `col` and `dir`: entries are inserted one by one,
/// each after every entry already placed with an equal key.
pub open spec fn sorted_entries(s: Seq<FileEntry>, col: SortColumn, dir: SortDirection) -> Seq<FileEntry>
    decreases s.len(),
{
    if s.len() == 0 {
        s
    } else {
        insert_entry(sorted_entries(s.drop_last(), col, dir), s.last(), col, dir)
    }
}

/// Each entry may stand before the next one.
pub open spec fn is_ordered(s: Seq<FileEntry>, col: SortColumn, dir: SortDirection) -> bool {
    forall|i: int| 0 <= i < s.len() - 1 ==> in_order(#[trigger] s[i], s[i + 1], col, dir)
}

/// Whether `a` comes no later than `b` lexicographically.
pub fn str_le(a: &str, b: &str) -> (r: bool)
    ensures
        r == lex_le(a@, b@),
{
    let n = a.unicode_len();
    let m = b.unicode_len();
    let mut i: usize = 0;
    assert(a@.subrange(0, n as int) =~= a@);
    assert(b@.subrange(0, m as int) =~= b@);
    while i < n && i < m
        invariant
            n == a@.len(),
            m == b@.len(),
            i <= n,
            i <= m,
            lex_le(a@, b@) == lex_le(a@.subrange(i as int, n as int), b@.subrange(i as int, m as int)),
        decreases n - i,
    {
        let x = a.get_char(i) as u32;
        let y = b.get_char(i) as u32;
        proof {
            let sa = a@.subrange(i as int, n as int);
            let sb = b@.subrange(i as int, m as int);
            assert(sa.drop_first() =~= a@.subrange(i + 1, n as int));
            assert(sb.drop_first() =~= b@.subrange(i + 1, m as int));
            assert(sa[0] == a@[i as int]);
            assert(sb[0] == b@[i as int]);
        }
        if x < y {
            return true;
        }
        if x > y {
            return false;
        }
        i += 1;
    }
    proof {
        let sa = a@.subrange(i as int, n as int);
        let sb = b@.subrange(i as int, m as int);
        assert(i == n ==> sa.len() == 0);
        assert(i < n ==> sb.len() == 0 && sa.len() > 0);
    }
    i == n
}

/// Whether `a` may stand before `b` in a table ordered by `col` and `dir`.
pub fn entry_in_order(a: &FileEntry, b: &FileEntry, col: SortColumn, dir: SortDirection) -> (r: bool)
    ensures
        r == in_order(*a, *b, col, dir),
{
    let (x, y) = match dir {
        SortDirection::Asc => (a, b),
        SortDirection::Desc => (b, a),
    };
    match col {
        SortColumn::Permission => str_le(x.perm.as_str(), y.perm.as_str()),
        SortColumn::Size => x.size <= y.size,
        SortColumn::Date => str_le(x.date.as_str(), y.date.as_str()),
        SortColumn::Name => str_le(x.name.as_str(), y.name.as_str()),
        SortColumn::Unsorted => true,
    }
}

proof fn lemma_insert_at(t: Seq<FileEntry>, x: FileEntry, col: SortColumn, dir: SortDirection, j: int)
    requires
        0 <= j <= t.len(),
        j == 0 || in_order(t[j - 1], x, col, dir),
        forall|k: int| j <= k < t.len() ==> !in_order(#[trigger] t[k], x, col, dir),
    ensures
        insert_entry(t, x, col, dir) == t.insert(j, x),
    decreases t.len(),
{
    if t.len() == 0 {
        assert(t.insert(j, x) =~= t.push(x));
    } else if j == t.len() {
        assert(t.insert(j, x) =~= t.push(x));
    } else {
        assert(!in_order(t.last(), x, col, dir));
        let u = t.drop_last();
        assert forall|k: int| j <= k < u.len() implies !in_order(#[trigger] u[k], x, col, dir) by {
            assert(u[k] == t[k]);
        }
        if j > 0 {
            assert(u[j - 1] == t[j - 1]);
        }
        lemma_insert_at(u, x, col, dir, j);
        assert(u.insert(j, x).push(t.last()) =~= t.insert(j, x));
    }
}

/// Stable sort of `files` by `col` and `dir`.
pub fn sort_entries(files: &mut Vec<FileEntry>, col: SortColumn, dir: SortDirection)
    ensures
        final(files)@ == sorted_entries(old(files)@, col, dir),
{
    let ghost input = old(files)@;
    // the entries in reverse, so that popping yields them in order
    let mut rev: Vec<FileEntry> = Vec::new();
    while files.len() > 0
        invariant
            files@ + rev@.reverse() == input,
        decreases files@.len(),
    {
        let ghost f0 = files@;
        let ghost r0 = rev@;
        let e = files.pop().unwrap();
        rev.push(e);
        proof {
            assert(rev@.reverse() =~= seq![e] + r0.reverse());
            assert(files@ + rev@.reverse() =~= f0 + r0.reverse());
        }
    }
    let mut out: Vec<FileEntry> = Vec::new();
    let ghost done: Seq<FileEntry> = Seq::empty();
    assert(rev@.reverse() =~= input);
    while rev.len() > 0
        invariant
            done + rev@.reverse() == input,
            out@ == sorted_entries(done, col, dir),
        decreases rev@.len(),
    {
        let ghost r0 = rev@;
        let x = rev.pop().unwrap();
        proof {
            assert(r0.reverse() =~= seq![x] + rev@.reverse());
            assert((done.push(x)).drop_last() =~= done);
            done = done.push(x);
            assert(done + rev@.reverse() =~= input);
        }
        let mut j: usize = out.len();
        while j > 0 && !entry_in_order(&out[j - 1], &x, col, dir)
            invariant
                j <= out@.len(),
                forall|k: int| j <= k < out@.len() ==> !in_order(#[trigger] out@[k], x, col, dir),
            decreases j,
        {
            j -= 1;
        }
        proof {
            lemma_insert_at(out@, x, col, dir, j as int);
        }
        out.insert(j, x);
    }
    assert(done =~= input);
    *files = out;
}

} // verus!

verus! {

proof fn lemma_lex_total(a: Seq<char>, b: Seq<char>)
    ensures
        lex_le(a, b) || lex_le(b, a),
    decreases a.len(),
{
    if a.len() > 0 && b.len() > 0 && a[0] as u32 == b[0] as u32 {
        lemma_lex_total(a.drop_first(), b.drop_first());
    }
}

proof fn lemma_in_order_total(a: FileEntry, b: FileEntry, col: SortColumn, dir: SortDirection)
    ensures
        in_order(a, b, col, dir) || in_order(b, a, col, dir),
{
    lemma_lex_total(a.perm@, b.perm@);
    lemma_lex_total(a.date@, b.date@);
    lemma_lex_total(a.name@, b.name@);
}

proof fn lemma_insert_keeps_order(t: Seq<FileEntry>, x: FileEntry, col: SortColumn, dir: SortDirection)
    requires
        is_ordered(t, col, dir),
    ensures
        is_ordered(insert_entry(t, x, col, dir), col, dir),
        insert_entry(t, x, col, dir).len() == t.len() + 1,
        insert_entry(t, x, col, dir).last() == x || (t.len() > 0 && insert_entry(t, x, col, dir).last()
            == t.last()),
        insert_entry(t, x, col, dir).to_multiset() == t.to_multiset().insert(x),
    decreases t.len(),
{
    broadcast use vstd::seq_lib::to_multiset_build;
    let r = insert_entry(t, x, col, dir);
    if t.len() == 0 || in_order(t.last(), x, col, dir) {
        assert forall|i: int| 0 <= i < r.len() - 1 implies in_order(#[trigger] r[i], r[i + 1], col, dir) by {
            if i < t.len() - 1 {
                assert(r[i] == t[i] && r[i + 1] == t[i + 1]);
            }
        }
    } else {
        let u = t.drop_last();
        assert forall|i: int| 0 <= i < u.len() - 1 implies in_order(#[trigger] u[i], u[i + 1], col, dir) by {
            assert(u[i] == t[i] && u[i + 1] == t[i + 1]);
        }
        lemma_insert_keeps_order(u, x, col, dir);
        let w = insert_entry(u, x, col, dir);
        lemma_in_order_total(t.last(), x, col, dir);
        if u.len() > 0 {
            assert(in_order(t[u.len() - 1], t[u.len() as int], col, dir));
        }
        assert forall|i: int| 0 <= i < r.len() - 1 implies in_order(#[trigger] r[i], r[i + 1], col, dir) by {
            if i < w.len() - 1 {
                assert(r[i] == w[i] && r[i + 1] == w[i + 1]);
            } else {
                assert(r[i] == w.last());
            }
        }
        assert(t.drop_last().push(t.last()) =~= t);
    }
}

/// Sorting orders the table, entry after entry, and keeps exactly the
/// entries it was given.
pub proof fn sort_orders_and_keeps_entries(s: Seq<FileEntry>, col: SortColumn, dir: SortDirection)
    ensures
        is_ordered(sorted_entries(s, col, dir), col, dir),
        sorted_entries(s, col, dir).to_multiset() == s.to_multiset(),
    decreases s.len(),
{
    broadcast use vstd::seq_lib::to_multiset_build;
    if s.len() > 0 {
        sort_orders_and_keeps_entries(s.drop_last(), col, dir);
        lemma_insert_keeps_order(sorted_entries(s.drop_last(), col, dir), s.last(), col, dir);
        assert(s.drop_last().push(s.last()) =~= s);
    } else {
        assert(s.to_multiset() =~= sorted_entries(s, col, dir).to_multiset());
    }
}

} // verus!

verus! {

/// `a` and `b` have the same key in column `col`.
pub open spec fn same_key(a: FileEntry, b: FileEntry, col: SortColumn) -> bool {
    match col {
        SortColumn::Permission => a.perm@ == b.perm@,
        SortColumn::Size => a.size == b.size,
        SortColumn::Date => a.date@ == b.date@,
        SortColumn::Name => a.name@ == b.name@,
        SortColumn::Unsorted => true,
    }
}

/// The entries of `s` whose key in `col` equals that of `k`, in order.
pub open spec fn ties(s: Seq<FileEntry>, k: FileEntry, col: SortColumn) -> Seq<FileEntry>
    decreases s.len(),
{
    if s.len() == 0 {
        s
    } else if same_key(s.last(), k, col) {
        ties(s.drop_last(), k, col).push(s.last())
    } else {
        ties(s.drop_last(), k, col)
    }
}

proof fn lemma_lex_refl(a: Seq<char>)
    ensures
        lex_le(a, a),
    decreases a.len(),
{
    if a.len() > 0 {
        lemma_lex_refl(a.drop_first());
    }
}

proof fn lemma_ties_insert(t: Seq<FileEntry>, x: FileEntry, k: FileEntry, col: SortColumn, dir: SortDirection)
    ensures
        ties(insert_entry(t, x, col, dir), k, col) == if same_key(x, k, col) {
            ties(t, k, col).push(x)
        } else {
            ties(t, k, col)
        },
    decreases t.len(),
{
    let r = insert_entry(t, x, col, dir);
    if t.len() == 0 || in_order(t.last(), x, col, dir) {
        assert(r.drop_last() =~= t);
    } else {
        let u = t.drop_last();
        lemma_ties_insert(u, x, k, col, dir);
        let w = insert_entry(u, x, col, dir);
        assert(r.drop_last() =~= w);
        if same_key(x, k, col) && same_key(t.last(), k, col) {
            lemma_lex_refl(x.perm@);
            lemma_lex_refl(x.date@);
            lemma_lex_refl(x.name@);
            assert(in_order(t.last(), x, col, dir));
        }
    }
}

/// Sorting is stable: the entries that share a key keep their relative order.
pub proof fn sort_is_stable(s: Seq<FileEntry>, k: FileEntry, col: SortColumn, dir: SortDirection)
    ensures
        ties(sorted_entries(s, col, dir), k, col) == ties(s, k, col),
    decreases s.len(),
{
    if s.len() > 0 {
        sort_is_stable(s.drop_last(), k, col, dir);
        lemma_ties_insert(sorted_entries(s.drop_last(), col, dir), s.last(), k, col, dir);
    }
}

} // verus!
