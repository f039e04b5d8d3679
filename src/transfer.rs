use vstd::prelude::*;
use crate::message::AppMessage;

verus! {

/// The bytes a bounded read delivers: the first `bytes_read` bytes of its
/// buffer, and never more than `max_bytes`.
pub open spec fn delivered_bytes(buffer: Seq<u8>, bytes_read: int, max_bytes: int) -> Seq<u8> {
    let k = if bytes_read < max_bytes { bytes_read } else { max_bytes };
    let k = if k < buffer.len() { k } else { buffer.len() as int };
    buffer.subrange(0, k)
}

/// Cuts a read buffer down to what was read, capped at `max_bytes`.
pub fn content_prefix(buffer: Vec<u8>, bytes_read: usize, max_bytes: usize) -> (r: Vec<u8>)
    ensures
        r@ == delivered_bytes(buffer@, bytes_read as int, max_bytes as int),
        r@.len() <= max_bytes,
{
    let mut b = buffer;
    let k: usize = if bytes_read < max_bytes {
        bytes_read
    } else {
        max_bytes
    };
    let k: usize = if k < b.len() {
        k
    } else {
        b.len()
    };
    b.truncate(k);
    assert(b@ =~= delivered_bytes(buffer@, bytes_read as int, max_bytes as int));
    b
}

/// The message for a content read of `remote_path`: on success, the path
/// and at most `max_bytes` bytes; otherwise the reason.
pub fn content_message<C>(
    remote_path: &str,
    read: Result<(Vec<u8>, usize), String>,
    max_bytes: usize,
) -> (m: AppMessage<C>)
    ensures
        m is FileContentResult,
        match (read, m) {
            (Ok((buf, n)), AppMessage::FileContentResult(Ok((p, bytes)))) => p@ == remote_path@
                && bytes@ == delivered_bytes(buf@, n as int, max_bytes as int) && bytes@.len()
                <= max_bytes,
            (Err(e), AppMessage::FileContentResult(Err(f))) => f@ == e@,
            _ => false,
        },
{
    match read {
        Ok((buf, n)) => {
            let bytes = content_prefix(buf, n, max_bytes);
            AppMessage::FileContentResult(Ok((String::from_str(remote_path), bytes)))
        },
        Err(e) => AppMessage::FileContentResult(Err(e)),
    }
}

/// The message for a finished download of `file_name`.
pub fn download_message<C>(file_name: &str, outcome: Result<(), String>) -> (m: AppMessage<C>)
    ensures
        match (outcome, m) {
            (Ok(_), AppMessage::DownloadResult(Ok(s))) => s@ == "Downloaded "@ + file_name@,
            (Err(e), AppMessage::DownloadResult(Err(f))) => f@ == e@,
            _ => false,
        },
{
    match outcome {
        Ok(_) => AppMessage::DownloadResult(Ok(String::from_str("Downloaded ").concat(file_name))),
        Err(e) => AppMessage::DownloadResult(Err(e)),
    }
}

} // verus!
