use vstd::prelude::*;
use crate::model::FileEncoding;

verus! {

/// The text that encoding_rs decodes from `bytes`, as Shift-JIS when
/// `shift_jis` holds and as UTF-8 otherwise.
pub uninterp spec fn decoded_text(shift_jis: bool, bytes: Seq<u8>) -> Seq<char>;

/// Relies on encoding_rs's `Encoding::decode` for `UTF_8` or `SHIFT_JIS`:
/// the text depends on the encoding and the bytes alone, and no bytes give
/// no text.
#[verifier::external_body]
fn decode(shift_jis: bool, bytes: &[u8]) -> (r: String)
    ensures
        r@ == decoded_text(shift_jis, bytes@),
        bytes@.len() == 0 ==> r@.len() == 0,
{
    let coder = if shift_jis {
        encoding_rs::SHIFT_JIS
    } else {
        encoding_rs::UTF_8
    };
    coder.decode(bytes).0.into_owned()
}

/// Whether an encoding is Shift-JIS.
pub open spec fn is_sjis(e: FileEncoding) -> bool {
    e is ShiftJis
}

/// The text of `bytes` in encoding `e`.
pub fn decode_as(e: FileEncoding, bytes: &Vec<u8>) -> (r: String)
    ensures
        r@ == decoded_text(is_sjis(e), bytes@),
{
    let sj = match e {
        FileEncoding::Utf8 => false,
        FileEncoding::ShiftJis => true,
    };
    decode(sj, bytes.as_slice())
}

/// A fetched file shown as text; the raw bytes are kept so that another
/// encoding can be applied without fetching again.
pub struct FileViewerState {
    pub filename: String,
    pub raw_content: Vec<u8>,
    pub decoded_content: String,
    pub encoding: FileEncoding,
}

impl FileViewerState {
    /// The shown text is the raw bytes in the chosen encoding.
    pub open spec fn wf(&self) -> bool {
        self.decoded_content@ == decoded_text(is_sjis(self.encoding), self.raw_content@)
    }

    /// Shows fetched bytes as UTF-8.
    pub fn open(filename: String, raw_content: Vec<u8>) -> (v: FileViewerState)
        ensures
            v.wf(),
            v.filename@ == filename@,
            v.raw_content@ == raw_content@,
            v.encoding == FileEncoding::Utf8,
    {
        let decoded_content = decode_as(FileEncoding::Utf8, &raw_content);
        FileViewerState { filename, raw_content, decoded_content, encoding: FileEncoding::Utf8 }
    }

    /// Switches to encoding `e`, decoding the kept bytes again when it changes.
    pub fn set_encoding(&mut self, e: FileEncoding)
        requires
            old(self).wf(),
        ensures
            final(self).wf(),
            final(self).encoding == e,
            final(self).filename == old(self).filename,
            final(self).raw_content == old(self).raw_content,
    {
        if e != self.encoding {
            self.encoding = e;
            self.decoded_content = decode_as(e, &self.raw_content);
        }
    }
}

} // verus!
