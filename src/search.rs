use vstd::prelude::*;
use vstd::multiset::Multiset;
use crate::glob::{glob_match, matches_pattern};
use crate::listing::{RawEntry, describes, is_dot, is_dot_name, make_entry, name_or};
use crate::message::{AppMessage, batch_messages, finished_stream};
use crate::model::{FileEntry, stat_is_dir};

verus! {

/// Records of a search that produce a result, in visiting order: those that
/// are not `.` or `..` and whose name (empty when not valid text) matches.
pub open spec fn found(visited: Seq<RawEntry>, pattern: Seq<char>) -> Seq<RawEntry>
    decreases visited.len(),
{
    if visited.len() == 0 {
        visited
    } else {
        let r = visited.last();
        let n = name_or(r, Seq::empty());
        if !is_dot_name(n) && glob_match(n, pattern) {
            found(visited.drop_last(), pattern).push(r)
        } else {
            found(visited.drop_last(), pattern)
        }
    }
}

/// `rows` holds one row for each record of `recs`, in order.
pub open spec fn rows_of(rows: Seq<FileEntry>, recs: Seq<RawEntry>) -> bool {
    &&& rows.len() == recs.len()
    &&& forall|i: int|
        0 <= i < rows.len() ==> describes(#[trigger] rows[i], name_or(recs[i], Seq::empty()), recs[i].stat)
}

/// Number of records still waiting in a stack of directory frames.
pub open spec fn pending(frames: Seq<Vec<RawEntry>>) -> nat
    decreases frames.len(),
{
    if frames.len() == 0 {
        0
    } else {
        pending(frames.drop_last()) + frames.last()@.len()
    }
}

/// The records still waiting in a stack of directory frames.
pub open spec fn pending_records(frames: Seq<Vec<RawEntry>>) -> Multiset<RawEntry>
    decreases frames.len(),
{
    if frames.len() == 0 {
        Multiset::empty()
    } else {
        pending_records(frames.drop_last()).add(frames.last()@.to_multiset())
    }
}

/// A search descends into a record when it is recursive and the record is
/// a directory other than `.` and `..`.
pub open spec fn descends(r: RawEntry, recursive: bool) -> bool {
    recursive && stat_is_dir(r.stat) && !is_dot_name(name_or(r, Seq::empty()))
}

/// What the driver of a walk does next.
pub enum WalkStep {
    /// Read this directory and feed the outcome back.
    ReadDir(String),
    /// The walk is over.
    Done,
}

/// A depth-first, pre-order search for names matching a glob. The walk
/// keeps an explicit stack of open directories; whoever drives it reads the
/// directories it asks for and feeds each outcome back.
pub struct SearchWalk {
    pub pattern: String,
    pub recursive: bool,
    /// Unvisited records of each open directory, innermost last; each
    /// frame holds its records in reverse, the next one last.
    pub frames: Vec<Vec<RawEntry>>,
    pub results: Vec<FileEntry>,
    /// Why the starting directory could not be read.
    pub failed: Option<String>,
    /// Whether the starting directory has been fed.
    pub started: bool,
    /// Records of every successful read so far, in feeding order.
    pub fed: Ghost<Seq<RawEntry>>,
    /// Records visited so far, in order.
    pub visited: Ghost<Seq<RawEntry>>,
}

impl SearchWalk {
    /// The results are the rows of the matching visited records, and every
    /// record read is either visited or still waiting, once.
    pub open spec fn wf(&self) -> bool {
        &&& rows_of(self.results@, found(self.visited@, self.pattern@))
        &&& self.fed@.to_multiset() == self.visited@.to_multiset().add(pending_records(self.frames@))
        &&& !self.started ==> self.frames@.len() == 0
    }

    /// Number of directory frames still open.
    pub open spec fn depth(&self) -> nat {
        self.frames@.len()
    }

    /// A walk that has read nothing yet.
    pub fn new(pattern: &str, recursive: bool) -> (w: SearchWalk)
        ensures
            w.wf(),
            w.pattern@ == pattern@,
            w.recursive == recursive,
            w.results@.len() == 0,
            w.failed.is_none(),
            !w.started,
            w.fed@.len() == 0,
            w.visited@.len() == 0,
            w.depth() == 0,
    {
        let w = SearchWalk {
            pattern: String::from_str(pattern),
            recursive,
            frames: Vec::new(),
            results: Vec::new(),
            failed: None,
            started: false,
            fed: Ghost(Seq::empty()),
            visited: Ghost(Seq::empty()),
        };
        assert(w.fed@.to_multiset() =~= w.visited@.to_multiset().add(pending_records(w.frames@)));
        w
    }

    /// Takes the outcome of the last directory read and says what to do
    /// next. A failed read of the starting directory fails the search; a
    /// failed read of any directory below it is skipped, and the walk goes
    /// on with that directory's siblings. When the walk is over, every
    /// record of every successful read has been visited exactly once.
    pub fn feed(&mut self, read: Result<Vec<RawEntry>, String>) -> (step: WalkStep)
        requires
            old(self).wf(),
        ensures
            final(self).wf(),
            final(self).pattern == old(self).pattern,
            final(self).recursive == old(self).recursive,
            final(self).started,
            final(self).fed@ == old(self).fed@ + match read {
                Ok(v) => v@,
                Err(_) => Seq::empty(),
            },
            old(self).visited@.is_prefix_of(final(self).visited@),
            old(self).results@.is_prefix_of(final(self).results@),
            old(self).started ==> final(self).failed == old(self).failed,
            !old(self).started ==> final(self).failed == match read {
                Ok(_) => old(self).failed,
                Err(e) => Some(e),
            },
            Self::steps_ok(*old(self), *final(self), step),
            step is Done ==> final(self).fed@.to_multiset() == final(self).visited@.to_multiset(),
    {
        broadcast use vstd::seq_lib::group_to_multiset_ensures;
        broadcast use vstd::seq_lib::lemma_multiset_commutative;
        broadcast use vstd::multiset::group_multiset_axioms;

        let first = !self.started;
        self.started = true;
        match read {
            Ok(entries) => {
                let ghost orig = entries@;
                let mut entries = entries;
                let mut frame: Vec<RawEntry> = Vec::new();
                assert(frame@.to_multiset().add(entries@.to_multiset()) =~= orig.to_multiset());
                while entries.len() > 0
                    invariant
                        frame@.to_multiset().add(entries@.to_multiset()) == orig.to_multiset(),
                    decreases entries@.len(),
                {
                    let ghost e0 = entries@;
                    let r = entries.pop().unwrap();
                    let ghost f0 = frame@;
                    proof {
                        assert(e0 =~= entries@.push(r));
                        vstd::seq_lib::to_multiset_build(entries@, r);
                        vstd::seq_lib::to_multiset_build(f0, r);
                    }
                    frame.push(r);
                    assert(frame@.to_multiset().add(entries@.to_multiset()) =~= orig.to_multiset());
                }
                let ghost fs0 = self.frames@;
                self.frames.push(frame);
                proof {
                    assert(self.frames@.drop_last() =~= fs0);
                    self.fed = Ghost(self.fed@ + orig);
                    assert(self.fed@.to_multiset() =~= self.visited@.to_multiset().add(
                        pending_records(self.frames@),
                    ));
                }
            },
            Err(e) => {
                if first {
                    self.failed = Some(e);
                    proof {
                        assert(self.fed@ =~= old(self).fed@ + Seq::<RawEntry>::empty());
                    }
                    return WalkStep::Done;
                }
                assert(self.fed@ =~= old(self).fed@ + Seq::<RawEntry>::empty());
            },
        }
        self.advance()
    }

    /// Of the records visited between `a` and `b`, the walk asks to descend
    /// into the last one when `step` reads a directory, and needs to descend
    /// into none of the others; a finished walk has no open directory left.
    pub open spec fn steps_ok(a: SearchWalk, b: SearchWalk, step: WalkStep) -> bool {
        let n = match step {
            WalkStep::ReadDir(_) => b.visited@.len() - 1,
            WalkStep::Done => b.visited@.len() as int,
        };
        &&& forall|i: int| a.visited@.len() <= i < n ==> !descends(#[trigger] b.visited@[i], b.recursive)
        &&& match step {
            WalkStep::ReadDir(p) => b.visited@.len() > a.visited@.len() && descends(
                b.visited@.last(),
                b.recursive,
            ) && p@ == b.visited@.last().path@,
            WalkStep::Done => b.depth() == 0 || b.failed.is_some(),
        }
    }

    /// Visits records until one is a directory to descend into, or none is left.
    fn advance(&mut self) -> (step: WalkStep)
        requires
            old(self).wf(),
        ensures
            final(self).wf(),
            final(self).pattern == old(self).pattern,
            final(self).recursive == old(self).recursive,
            final(self).started == old(self).started,
            final(self).failed == old(self).failed,
            final(self).fed == old(self).fed,
            old(self).visited@.is_prefix_of(final(self).visited@),
            old(self).results@.is_prefix_of(final(self).results@),
            Self::steps_ok(*old(self), *final(self), step),
            step is Done ==> final(self).depth() == 0,
    {
        broadcast use vstd::seq_lib::group_to_multiset_ensures;
        broadcast use vstd::multiset::group_multiset_axioms;

        while self.frames.len() > 0
            invariant
                self.wf(),
                self.pattern == old(self).pattern,
                self.recursive == old(self).recursive,
                self.started == old(self).started,
                self.failed == old(self).failed,
                self.fed == old(self).fed,
                old(self).visited@.is_prefix_of(self.visited@),
                old(self).results@.is_prefix_of(self.results@),
                forall|i: int|
                    old(self).visited@.len() <= i < self.visited@.len() ==> !descends(
                        #[trigger] self.visited@[i],
                        self.recursive,
                    ),
            decreases pending(self.frames@) + self.frames@.len(),
        {
            let ghost fs0 = self.frames@;
            let mut top = self.frames.pop().unwrap();
            proof {
                assert(self.frames@ =~= fs0.drop_last());
            }
            if top.len() == 0 {
                proof {
                    vstd::seq_lib::to_multiset_len(top@);
                    vstd::multiset::lemma_multiset_empty_len(top@.to_multiset());
                    assert(pending_records(self.frames@) =~= pending_records(fs0));
                }
                continue;
            }
            let ghost t0 = top@;
            let r = top.pop().unwrap();
            proof {
                assert(t0 =~= top@.push(r));
                vstd::seq_lib::to_multiset_build(top@, r);
                vstd::seq_lib::to_multiset_build(self.visited@, r);
            }
            self.frames.push(top);
            let ghost v0 = self.visited@;
            let ghost res0 = self.results@;
            proof {
                assert(self.frames@.drop_last() =~= fs0.drop_last());
                self.visited = Ghost(self.visited@.push(r));
                assert(self.visited@.drop_last() =~= v0);
                assert(self.visited@.to_multiset() =~= v0.to_multiset().insert(r));
                assert(pending_records(fs0) =~= pending_records(fs0.drop_last()).add(t0.to_multiset()));
                assert(pending_records(self.frames@) =~= pending_records(fs0.drop_last()).add(top@.to_multiset()));
                assert(self.fed@.to_multiset() =~= self.visited@.to_multiset().add(
                    pending_records(self.frames@),
                ));
            }
            let name = match &r.name {
                Some(n) => n.clone(),
                None => String::new(),
            };
            assert(name@ == name_or(r, Seq::empty()));
            if !is_dot(name.as_str()) {
                let hit = matches_pattern(name.as_str(), self.pattern.as_str());
                let descend = self.recursive && r.stat.is_dir();
                if hit {
                    let e = make_entry(name, &r.stat);
                    self.results.push(e);
                    proof {
                        let fv = found(self.visited@, self.pattern@);
                        assert(fv == found(v0, self.pattern@).push(r));
                        assert forall|i: int| 0 <= i < self.results@.len() implies describes(
                            #[trigger] self.results@[i],
                            name_or(fv[i], Seq::empty()),
                            fv[i].stat,
                        ) by {
                            if i < res0.len() {
                                assert(self.results@[i] == res0[i]);
                            }
                        }
                        assert(res0.is_prefix_of(self.results@));
                    }
                } else {
                    assert(found(self.visited@, self.pattern@) == found(v0, self.pattern@));
                }
                if descend {
                    proof {
                        assert forall|i: int|
                            old(self).visited@.len() <= i < self.visited@.len() - 1 implies !descends(
                            #[trigger] self.visited@[i],
                            self.recursive,
                        ) by {
                            assert(self.visited@[i] == v0[i]);
                        }
                    }
                    return WalkStep::ReadDir(r.path);
                }
            } else {
                assert(found(self.visited@, self.pattern@) == found(v0, self.pattern@));
            }
            proof {
                assert forall|i: int|
                    old(self).visited@.len() <= i < self.visited@.len() implies !descends(
                    #[trigger] self.visited@[i],
                    self.recursive,
                ) by {
                    if i < v0.len() {
                        assert(self.visited@[i] == v0[i]);
                    }
                }
            }
        }
        WalkStep::Done
    }

    /// Messages of the whole search: `SearchStarted`, then either the
    /// results in batches and `ListFinished`, or `ListError` when the
    /// starting directory could not be read.
    pub fn finish<C>(self) -> (r: Vec<AppMessage<C>>)
        ensures
            r@.len() >= 1,
            r@[0] is SearchStarted,
            r@[0]->SearchStarted_0@ == self.pattern@,
            match self.failed {
                None => finished_stream(r@.drop_first(), self.results@),
                Some(e) => r@.len() == 2 && r@[1] is ListError && r@[1]->ListError_0@ == e@,
            },
    {
        let mut msgs: Vec<AppMessage<C>> = Vec::new();
        msgs.push(AppMessage::SearchStarted(self.pattern));
        match self.failed {
            None => {
                let mut rest = batch_messages(self.results);
                let ghost rv = rest@;
                msgs.append(&mut rest);
                assert(msgs@.drop_first() =~= rv);
            },
            Some(e) => {
                msgs.push(AppMessage::ListError(e));
            },
        }
        msgs
    }
}

} // verus!
