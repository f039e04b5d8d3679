use vstd::prelude::*;
use crate::message::{AppMessage, batch_messages, finished_stream};
use crate::model::{FileEntry, RemoteStat};
use crate::perms::{format_permissions, stat_permissions};
use crate::text::push_char;
use crate::timefmt::{date_text_ok, format_timestamp};

verus! {

/// One record of a remote directory read: the entry's full path, its last
/// path component when that is valid text, and its stat.
pub struct RawEntry {
    pub path: String,
    pub name: Option<String>,
    pub stat: RemoteStat,
}

/// The entry's name, or `fallback` when it has none.
pub open spec fn name_or(r: RawEntry, fallback: Seq<char>) -> Seq<char> {
    match r.name {
        Some(n) => n@,
        None => fallback,
    }
}

/// The name shown for an entry whose name is not valid text.
pub open spec fn unknown_name() -> Seq<char> {
    seq!['?']
}

/// `.` and `..`, which never appear in results.
pub open spec fn is_dot_name(n: Seq<char>) -> bool {
    n == seq!['.'] || n == seq!['.', '.']
}

/// The records of a directory read that a listing shows, in order.
pub open spec fn kept(raw: Seq<RawEntry>) -> Seq<RawEntry>
    decreases raw.len(),
{
    if raw.len() == 0 {
        raw
    } else if is_dot_name(name_or(raw.last(), unknown_name())) {
        kept(raw.drop_last())
    } else {
        kept(raw.drop_last()).push(raw.last())
    }
}

/// `e` is the table row for an entry called `name` with stat `st`: the
/// permission string of its mode, its size (0 when absent) and its rendered
/// modification time.
pub open spec fn describes(e: FileEntry, name: Seq<char>, st: RemoteStat) -> bool {
    &&& e.name@ == name
    &&& e.perm@ == stat_permissions(st)
    &&& e.size == st.size.unwrap_or(0u64)
    &&& date_text_ok(e.date@, st.mtime)
}

/// `out` holds one row for each record of `raw` but `.` and `..`, in order.
pub open spec fn lists(out: Seq<FileEntry>, raw: Seq<RawEntry>) -> bool {
    &&& out.len() == kept(raw).len()
    &&& forall|i: int|
        0 <= i < out.len() ==> describes(
            #[trigger] out[i],
            name_or(kept(raw)[i], unknown_name()),
            kept(raw)[i].stat,
        )
}

/// Builds the table row for an entry called `name`.
pub fn make_entry(name: String, stat: &RemoteStat) -> (e: FileEntry)
    ensures
        describes(e, name@, *stat),
{
    FileEntry {
        perm: format_permissions(stat),
        size: match stat.size {
            Some(s) => s,
            None => 0,
        },
        date: format_timestamp(stat.mtime),
        name,
    }
}

/// Whether `s` is `.` or `..`.
pub fn is_dot(s: &str) -> (r: bool)
    ensures
        r == is_dot_name(s@),
{
    let n = s.unicode_len();
    if n == 1 {
        let r = s.get_char(0) == '.';
        assert(r ==> s@ =~= seq!['.']);
        assert(s@.len() != 2);
        r
    } else if n == 2 {
        let r = s.get_char(0) == '.' && s.get_char(1) == '.';
        assert(r ==> s@ =~= seq!['.', '.']);
        assert(s@.len() != 1);
        r
    } else {
        assert(s@.len() != 1 && s@.len() != 2);
        false
    }
}

/// The name of a record, `?` when it has none.
fn listed_name(r: &RawEntry) -> (s: String)
    ensures
        s@ == name_or(*r, unknown_name()),
{
    match &r.name {
        Some(n) => n.clone(),
        None => {
            let mut s = String::new();
            push_char(&mut s, '?');
            assert(s@ =~= unknown_name());
            s
        },
    }
}

/// The rows of a directory read, leaving out `.` and `..`.
pub fn listing_entries(raw: &Vec<RawEntry>) -> (out: Vec<FileEntry>)
    ensures
        lists(out@, raw@),
{
    let mut out: Vec<FileEntry> = Vec::new();
    let mut i: usize = 0;
    assert(raw@.subrange(0, 0) =~= Seq::<RawEntry>::empty());
    while i < raw.len()
        invariant
            i <= raw@.len(),
            lists(out@, raw@.subrange(0, i as int)),
        decreases raw@.len() - i,
    {
        let r = &raw[i];
        let name = listed_name(r);
        let ghost prev = out@;
        let ghost pre = raw@.subrange(0, i as int);
        let ghost next = raw@.subrange(0, i + 1);
        proof {
            assert(next.drop_last() =~= pre);
            assert(next.last() == raw@[i as int]);
        }
        if !is_dot(name.as_str()) {
            let e = make_entry(name, &r.stat);
            out.push(e);
            proof {
                assert(kept(next) == kept(pre).push(raw@[i as int]));
                assert forall|j: int| 0 <= j < out@.len() implies describes(
                    #[trigger] out@[j],
                    name_or(kept(next)[j], unknown_name()),
                    kept(next)[j].stat,
                ) by {
                    if j < prev.len() {
                        assert(out@[j] == prev[j]);
                    }
                }
            }
        } else {
            assert(kept(next) == kept(pre));
        }
        i += 1;
    }
    assert(raw@.subrange(0, raw@.len() as int) =~= raw@);
    out
}

/// Messages of one listing of `path`: `ListStarted`, then on a successful
/// read the rows in batches and `ListFinished`, or else `ListError`.
pub fn list_messages<C>(path: &str, read: Result<Vec<RawEntry>, String>) -> (r: Vec<
    AppMessage<C>,
>)
    ensures
        r@.len() >= 1,
        r@[0] is ListStarted,
        r@[0]->ListStarted_0@ == path@,
        match read {
            Ok(raw) => exists|items: Seq<FileEntry>|
                lists(items, raw@) && finished_stream(#[trigger] r@.drop_first(), items),
            Err(e) => r@.len() == 2 && r@[1] is ListError && r@[1]->ListError_0@ == e@,
        },
{
    let mut msgs: Vec<AppMessage<C>> = Vec::new();
    msgs.push(AppMessage::ListStarted(String::from_str(path)));
    match read {
        Ok(raw) => {
            let items = listing_entries(&raw);
            let ghost iv = items@;
            let mut rest = batch_messages(items);
            let ghost rv = rest@;
            msgs.append(&mut rest);
            assert(msgs@.drop_first() =~= rv);
            assert(lists(iv, raw@) && finished_stream(msgs@.drop_first(), iv));
        },
        Err(e) => {
            msgs.push(AppMessage::ListError(e));
        },
    }
    msgs
}

} // verus!

verus! {

/// A listing never shows `.` or `..`.
pub proof fn listing_omits_dots(items: Seq<FileEntry>, raw: Seq<RawEntry>)
    requires
        lists(items, raw),
    ensures
        forall|i: int| 0 <= i < items.len() ==> !is_dot_name(#[trigger] items[i].name@),
{
    lemma_kept_not_dots(raw);
    assert forall|i: int| 0 <= i < items.len() implies !is_dot_name(#[trigger] items[i].name@) by {
        assert(describes(items[i], name_or(kept(raw)[i], unknown_name()), kept(raw)[i].stat));
    }
}

proof fn lemma_kept_not_dots(raw: Seq<RawEntry>)
    ensures
        forall|i: int|
            0 <= i < kept(raw).len() ==> !is_dot_name(name_or(#[trigger] kept(raw)[i], unknown_name())),
    decreases raw.len(),
{
    if raw.len() > 0 {
        lemma_kept_not_dots(raw.drop_last());
        let k = kept(raw.drop_last());
        if !is_dot_name(name_or(raw.last(), unknown_name())) {
            assert forall|i: int| 0 <= i < kept(raw).len() implies !is_dot_name(
                name_or(#[trigger] kept(raw)[i], unknown_name()),
            ) by {
                if i < k.len() {
                    assert(kept(raw)[i] == k[i]);
                }
            }
        }
    }
}

} // verus!
