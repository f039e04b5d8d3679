use vstd::prelude::*;
use crate::model::FileEntry;

verus! {

/// One outcome of background work, handed from a worker to the interactive
/// side. `C` is the connection handle that a successful connect delivers.
pub enum AppMessage<C> {
    ConnectionResult(Result<(C, String), String>),
    ListStarted(String),
    ListBatch(Vec<FileEntry>),
    ListFinished,
    ListError(String),
    SearchStarted(String),
    DownloadResult(Result<String, String>),
    FileContentResult(Result<(String, Vec<u8>), String>),
}

/// Entries carried by a message: those of a batch, none for any other kind.
pub open spec fn payload<C>(m: AppMessage<C>) -> Seq<FileEntry> {
    match m {
        AppMessage::ListBatch(b) => b@,
        _ => Seq::empty(),
    }
}

/// The largest number of entries one batch carries.
pub const BATCH_SIZE: usize = 200;

/// Entries of a message sequence, batch after batch, in delivery order.
pub open spec fn delivered<C>(msgs: Seq<AppMessage<C>>) -> Seq<FileEntry> {
    msgs.map_values(|m: AppMessage<C>| payload(m)).flatten()
}

/// Every message is a batch of one to `BATCH_SIZE` entries.
pub open spec fn all_batches<C>(msgs: Seq<AppMessage<C>>) -> bool {
    forall|i: int|
        0 <= i < msgs.len() ==> (#[trigger] msgs[i]) is ListBatch && 0 < payload(msgs[i]).len()
            <= BATCH_SIZE
}

/// Batches that deliver `items` in order, then `ListFinished`.
pub open spec fn finished_stream<C>(msgs: Seq<AppMessage<C>>, items: Seq<FileEntry>) -> bool {
    msgs.len() >= 1 && msgs.last() is ListFinished && all_batches(msgs.drop_last()) && delivered(
        msgs.drop_last(),
    ) == items
}

/// Splits `items` into batches of at most `BATCH_SIZE` entries, in order,
/// and ends the stream with `ListFinished`.
pub fn batch_messages<C>(items: Vec<FileEntry>) -> (r: Vec<AppMessage<C>>)
    ensures
        finished_stream(r@, items@),
{
    let mut msgs: Vec<AppMessage<C>> = Vec::new();
    let mut rest = items;
    proof {
        assert(delivered(msgs@) =~= Seq::<FileEntry>::empty());
        assert(delivered(msgs@) + rest@ =~= items@);
    }
    while rest.len() > 0
        invariant
            delivered(msgs@) + rest@ == items@,
            all_batches(msgs@),
        decreases rest@.len(),
    {
        let k: usize = if rest.len() < BATCH_SIZE {
            rest.len()
        } else {
            BATCH_SIZE
        };
        let tail = rest.split_off(k);
        let ghost before = msgs@;
        let ghost chunk = rest@;
        msgs.push(AppMessage::ListBatch(rest));
        proof {
            let f = |m: AppMessage<C>| payload(m);
            assert(msgs@.map_values(f) =~= before.map_values(f).push(chunk));
            before.map_values(f).lemma_flatten_push(chunk);
            assert(delivered(msgs@) + tail@ =~= items@);
            assert forall|i: int| 0 <= i < msgs@.len() implies (#[trigger] msgs@[i]) is ListBatch
                && 0 < payload(msgs@[i]).len() <= BATCH_SIZE by {
                if i < before.len() {
                    assert(msgs@[i] == before[i]);
                }
            }
        }
        rest = tail;
    }
    let ghost body = msgs@;
    msgs.push(AppMessage::ListFinished);
    proof {
        assert(msgs@.drop_last() =~= body);
        assert(rest@.len() == 0);
        assert(delivered(body) + rest@ =~= delivered(body));
    }
    msgs
}

} // verus!
