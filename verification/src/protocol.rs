//! Messages of the sync protocol, their binary form, and the frames that
//! carry them over a byte stream.
//!
//! A message is a tag followed by its fields in order; a frame is the
//! message behind a four-byte big-endian length.

use vstd::prelude::*;
use vstd::utf8::encode_utf8;
use crate::wire::{
    after_items, enc_bool, enc_bytes, enc_list, enc_str, enc_u32, enc_u64, lemma_after_items_step,
    lemma_enc_each_push, lemma_parse_bool, lemma_parse_bytes, lemma_parse_list, lemma_parse_str,
    lemma_parse_u32, lemma_parse_u64, enc_each, parse_bool, parse_bytes, parse_each, parse_list,
    parse_str, parse_u32, parse_u64, put_bool, put_bytes, put_raw, put_str, put_u32, put_u64,
    reads_back, take_bool, take_bytes, take_str, take_u32, take_u64,
};

verus! {

/// The protocol identifier that both endpoints advertise.
pub const ALPN: &'static str = "syncr/1";

/// The only protocol version there is.
pub const PROTOCOL_VERSION: u32 = 1;

/// Bytes of the length that precedes every message on the stream.
pub const FRAME_HEADER: usize = 4;

pub const TAG_HANDSHAKE: u32 = 0;

pub const TAG_FILE_REQUEST: u32 = 1;

pub const TAG_FILE_DATA: u32 = 2;

pub const TAG_FILE_SIGNATURE: u32 = 3;

pub const TAG_FILE_DELTA: u32 = 4;

pub const TAG_LIST_REQUEST: u32 = 5;

pub const TAG_LIST_RESPONSE: u32 = 6;

pub const TAG_FILE_UPDATE_NOTIFICATION: u32 = 7;

pub const TAG_START_SYNC: u32 = 8;

pub const TAG_ERROR: u32 = 9;

/// One entry of a listing.
#[derive(Debug, Clone, PartialEq, Eq)]
pub struct FileMetadata {
    pub path: String,
    pub len: u64,
    /// Seconds since the epoch.
    pub modified: u64,
    pub is_dir: bool,
}

#[derive(Debug, Clone, PartialEq, Eq)]
pub enum Message {
    Handshake { version: u32 },
    /// Asks for a whole file.
    FileRequest { path: String },
    /// A whole file; `offset` 0 and `is_last` mark a single-frame transfer.
    FileData { path: String, data: Vec<u8>, offset: u64, is_last: bool },
    /// The receiver's block signature of its copy, asking for a delta.
    FileSignature { path: String, signature: Vec<u8> },
    /// The delta that turns the receiver's copy into the sender's.
    FileDelta { path: String, delta: Vec<u8> },
    /// Asks for everything under a path.
    ListRequest { path: String },
    ListResponse { files: Vec<FileMetadata> },
    /// Tells the peer that a path it syncs from has changed.
    FileUpdateNotification { path: String },
    /// Asks the peer to notify about changes under a path from now on.
    StartSync { path: String },
    Error { message: String },
}

/// Why bytes from the stream were no message.
#[derive(Debug, Clone, Copy, PartialEq, Eq, Structural)]
pub enum ProtocolError {
    /// The payload is malformed.
    ProtocolDecode,
    /// The stream ended inside a frame.
    ProtocolTruncated,
    /// The message is too long for the frame's length field.
    FrameTooLarge,
}

pub struct FileMetadataView {
    pub path: Seq<char>,
    pub len: u64,
    pub modified: u64,
    pub is_dir: bool,
}

pub enum MessageView {
    Handshake { version: u32 },
    FileRequest { path: Seq<char> },
    FileData { path: Seq<char>, data: Seq<u8>, offset: u64, is_last: bool },
    FileSignature { path: Seq<char>, signature: Seq<u8> },
    FileDelta { path: Seq<char>, delta: Seq<u8> },
    ListRequest { path: Seq<char> },
    ListResponse { files: Seq<FileMetadataView> },
    FileUpdateNotification { path: Seq<char> },
    StartSync { path: Seq<char> },
    Error { message: Seq<char> },
}

impl View for FileMetadata {
    type V = FileMetadataView;

    open spec fn view(&self) -> FileMetadataView {
        FileMetadataView {
            path: self.path@,
            len: self.len,
            modified: self.modified,
            is_dir: self.is_dir,
        }
    }
}

/// The views of a listing's entries.
pub open spec fn files_view(files: Seq<FileMetadata>) -> Seq<FileMetadataView> {
    files.map_values(|f: FileMetadata| f@)
}

impl View for Message {
    type V = MessageView;

    open spec fn view(&self) -> MessageView {
        match self {
            Message::Handshake { version } => MessageView::Handshake { version: *version },
            Message::FileRequest { path } => MessageView::FileRequest { path: path@ },
            Message::FileData { path, data, offset, is_last } => MessageView::FileData {
                path: path@,
                data: data@,
                offset: *offset,
                is_last: *is_last,
            },
            Message::FileSignature { path, signature } => MessageView::FileSignature {
                path: path@,
                signature: signature@,
            },
            Message::FileDelta { path, delta } => MessageView::FileDelta {
                path: path@,
                delta: delta@,
            },
            Message::ListRequest { path } => MessageView::ListRequest { path: path@ },
            Message::ListResponse { files } => MessageView::ListResponse {
                files: files_view(files@),
            },
            Message::FileUpdateNotification { path } => MessageView::FileUpdateNotification {
                path: path@,
            },
            Message::StartSync { path } => MessageView::StartSync { path: path@ },
            Message::Error { message } => MessageView::Error { message: message@ },
        }
    }
}

/// Text whose UTF-8 length a 64-bit length field can hold.
pub open spec fn text_fits(s: Seq<char>) -> bool {
    encode_utf8(s).len() <= u64::MAX
}

impl FileMetadataView {
    pub open spec fn fits(self) -> bool {
        text_fits(self.path)
    }
}

impl MessageView {
    /// Every length in the message fits its 64-bit length field; the view
    /// of a message in memory always does.
    pub open spec fn fits(self) -> bool {
        match self {
            MessageView::Handshake { .. } => true,
            MessageView::FileRequest { path } => text_fits(path),
            MessageView::FileData { path, data, .. } => text_fits(path) && data.len() <= u64::MAX,
            MessageView::FileSignature { path, signature } => text_fits(path) && signature.len()
                <= u64::MAX,
            MessageView::FileDelta { path, delta } => text_fits(path) && delta.len() <= u64::MAX,
            MessageView::ListRequest { path } => text_fits(path),
            MessageView::ListResponse { files } => files.len() <= u64::MAX && forall|i: int|
                0 <= i < files.len() ==> (#[trigger] files[i]).fits(),
            MessageView::FileUpdateNotification { path } => text_fits(path),
            MessageView::StartSync { path } => text_fits(path),
            MessageView::Error { message } => text_fits(message),
        }
    }
}

pub open spec fn enc_file(f: FileMetadataView) -> Seq<u8> {
    enc_str(f.path) + enc_u64(f.len) + enc_u64(f.modified) + enc_bool(f.is_dir)
}

pub open spec fn parse_file(b: Seq<u8>) -> Option<(FileMetadataView, nat)> {
    match parse_str(b) {
        Some((path, n1)) => match parse_u64(b.skip(n1 as int)) {
            Some((len, n2)) => match parse_u64(b.skip((n1 + n2) as int)) {
                Some((modified, n3)) => match parse_bool(b.skip((n1 + n2 + n3) as int)) {
                    Some((is_dir, n4)) => Some(
                        (FileMetadataView { path, len, modified, is_dir }, n1 + n2 + n3 + n4),
                    ),
                    None => None,
                },
                None => None,
            },
            None => None,
        },
        None => None,
    }
}

pub open spec fn file_enc() -> spec_fn(FileMetadataView) -> Seq<u8> {
    |f: FileMetadataView| enc_file(f)
}

pub open spec fn file_item() -> spec_fn(Seq<u8>) -> Option<(FileMetadataView, nat)> {
    |b: Seq<u8>| parse_file(b)
}

/// The fields of a message, without its tag.
pub open spec fn enc_body(m: MessageView) -> Seq<u8> {
    match m {
        MessageView::Handshake { version } => enc_u32(version),
        MessageView::FileRequest { path } => enc_str(path),
        MessageView::FileData { path, data, offset, is_last } => enc_str(path) + enc_bytes(data)
            + enc_u64(offset) + enc_bool(is_last),
        MessageView::FileSignature { path, signature } => enc_str(path) + enc_bytes(signature),
        MessageView::FileDelta { path, delta } => enc_str(path) + enc_bytes(delta),
        MessageView::ListRequest { path } => enc_str(path),
        MessageView::ListResponse { files } => enc_list(files, file_enc()),
        MessageView::FileUpdateNotification { path } => enc_str(path),
        MessageView::StartSync { path } => enc_str(path),
        MessageView::Error { message } => enc_str(message),
    }
}

pub open spec fn tag_of(m: MessageView) -> u32 {
    match m {
        MessageView::Handshake { .. } => TAG_HANDSHAKE,
        MessageView::FileRequest { .. } => TAG_FILE_REQUEST,
        MessageView::FileData { .. } => TAG_FILE_DATA,
        MessageView::FileSignature { .. } => TAG_FILE_SIGNATURE,
        MessageView::FileDelta { .. } => TAG_FILE_DELTA,
        MessageView::ListRequest { .. } => TAG_LIST_REQUEST,
        MessageView::ListResponse { .. } => TAG_LIST_RESPONSE,
        MessageView::FileUpdateNotification { .. } => TAG_FILE_UPDATE_NOTIFICATION,
        MessageView::StartSync { .. } => TAG_START_SYNC,
        MessageView::Error { .. } => TAG_ERROR,
    }
}

/// The binary form of a message.
pub open spec fn serialize(m: MessageView) -> Seq<u8> {
    enc_u32(tag_of(m)) + enc_body(m)
}

/// A text field followed by a bytes field.
pub open spec fn parse_text_bytes(b: Seq<u8>) -> Option<(Seq<char>, Seq<u8>, nat)> {
    match parse_str(b) {
        Some((text, n1)) => match parse_bytes(b.skip(n1 as int)) {
            Some((bytes, n2)) => Some((text, bytes, n1 + n2)),
            None => None,
        },
        None => None,
    }
}

/// Reads the fields of the message with tag `tag`.
pub open spec fn parse_body(tag: u32, b: Seq<u8>) -> Option<(MessageView, nat)> {
    if tag == TAG_HANDSHAKE {
        match parse_u32(b) {
            Some((version, n)) => Some((MessageView::Handshake { version }, n)),
            None => None,
        }
    } else if tag == TAG_FILE_REQUEST {
        match parse_str(b) {
            Some((path, n)) => Some((MessageView::FileRequest { path }, n)),
            None => None,
        }
    } else if tag == TAG_FILE_DATA {
        match parse_text_bytes(b) {
            Some((path, data, n1)) => match parse_u64(b.skip(n1 as int)) {
                Some((offset, n2)) => match parse_bool(b.skip((n1 + n2) as int)) {
                    Some((is_last, n3)) => Some(
                        (MessageView::FileData { path, data, offset, is_last }, n1 + n2 + n3),
                    ),
                    None => None,
                },
                None => None,
            },
            None => None,
        }
    } else if tag == TAG_FILE_SIGNATURE {
        match parse_text_bytes(b) {
            Some((path, signature, n)) => Some((MessageView::FileSignature { path, signature }, n)),
            None => None,
        }
    } else if tag == TAG_FILE_DELTA {
        match parse_text_bytes(b) {
            Some((path, delta, n)) => Some((MessageView::FileDelta { path, delta }, n)),
            None => None,
        }
    } else if tag == TAG_LIST_REQUEST {
        match parse_str(b) {
            Some((path, n)) => Some((MessageView::ListRequest { path }, n)),
            None => None,
        }
    } else if tag == TAG_LIST_RESPONSE {
        match parse_list(b, file_item()) {
            Some((files, n)) => Some((MessageView::ListResponse { files }, n)),
            None => None,
        }
    } else if tag == TAG_FILE_UPDATE_NOTIFICATION {
        match parse_str(b) {
            Some((path, n)) => Some((MessageView::FileUpdateNotification { path }, n)),
            None => None,
        }
    } else if tag == TAG_START_SYNC {
        match parse_str(b) {
            Some((path, n)) => Some((MessageView::StartSync { path }, n)),
            None => None,
        }
    } else if tag == TAG_ERROR {
        match parse_str(b) {
            Some((message, n)) => Some((MessageView::Error { message }, n)),
            None => None,
        }
    } else {
        None
    }
}

/// Reads one message from the front of `b`; what follows it is not looked
/// at. `None` when the tag is unknown or a field is malformed or cut short.
pub open spec fn parse_message(b: Seq<u8>) -> Option<(MessageView, nat)> {
    match parse_u32(b) {
        Some((tag, n)) => match parse_body(tag, b.skip(n as int)) {
            Some((m, k)) => Some((m, n + k)),
            None => None,
        },
        None => None,
    }
}

/// The message that the bytes `b` decode to.
pub open spec fn decoded(b: Seq<u8>) -> Option<MessageView> {
    match parse_message(b) {
        Some((m, _)) => Some(m),
        None => None,
    }
}


/// The length `n` as the four bytes of a frame header.
pub open spec fn length_bytes(n: u32) -> Seq<u8> {
    seq![
        (n / 0x100_0000) as u8,
        (n / 0x1_0000 % 256) as u8,
        (n / 0x100 % 256) as u8,
        (n % 256) as u8,
    ]
}

/// The length that a frame header announces.
pub open spec fn header_length(h: Seq<u8>) -> nat {
    (h[0] as nat) * 0x100_0000 + (h[1] as nat) * 0x1_0000 + (h[2] as nat) * 0x100 + h[3] as nat
}

/// A payload behind its length.
pub open spec fn framed(payload: Seq<u8>) -> Seq<u8> {
    length_bytes(payload.len() as u32) + payload
}

/// What reading one frame from the front of `b` gives: the message and
/// the bytes the frame took.
pub open spec fn unframed(b: Seq<u8>) -> Result<(MessageView, nat), ProtocolError> {
    if b.len() < FRAME_HEADER {
        Err(ProtocolError::ProtocolTruncated)
    } else {
        let n = header_length(b.take(FRAME_HEADER as int));
        if b.len() < FRAME_HEADER + n {
            Err(ProtocolError::ProtocolTruncated)
        } else {
            match decoded(b.subrange(FRAME_HEADER as int, FRAME_HEADER + n)) {
                Some(m) => Ok((m, FRAME_HEADER as nat + n)),
                None => Err(ProtocolError::ProtocolDecode),
            }
        }
    }
}

pub proof fn lemma_header_length(n: u32)
    ensures
        header_length(length_bytes(n)) == n,
        length_bytes(n).len() == FRAME_HEADER,
{
}

pub proof fn lemma_parse_file(f: FileMetadataView, rest: Seq<u8>)
    requires
        f.fits(),
    ensures
        parse_file(enc_file(f) + rest) == Some((f, enc_file(f).len())),
{
    let e1 = enc_str(f.path);
    let e2 = enc_u64(f.len);
    let e3 = enc_u64(f.modified);
    let e4 = enc_bool(f.is_dir);
    let b = enc_file(f) + rest;
    assert(b =~= e1 + (e2 + e3 + e4 + rest));
    lemma_parse_str(f.path, e2 + e3 + e4 + rest);
    assert(b.skip(e1.len() as int) =~= e2 + (e3 + e4 + rest));
    lemma_parse_u64(f.len, e3 + e4 + rest);
    assert(b.skip((e1.len() + e2.len()) as int) =~= e3 + (e4 + rest));
    lemma_parse_u64(f.modified, e4 + rest);
    assert(b.skip((e1.len() + e2.len() + e3.len()) as int) =~= e4 + rest);
    lemma_parse_bool(f.is_dir, rest);
}

proof fn lemma_parse_text_bytes(text: Seq<char>, bytes: Seq<u8>, rest: Seq<u8>)
    requires
        text_fits(text),
        bytes.len() <= u64::MAX,
    ensures
        parse_text_bytes(enc_str(text) + enc_bytes(bytes) + rest) == Some(
            (text, bytes, enc_str(text).len() + enc_bytes(bytes).len()),
        ),
{
    let e1 = enc_str(text);
    let e2 = enc_bytes(bytes);
    let b = e1 + e2 + rest;
    assert(b =~= e1 + (e2 + rest));
    lemma_parse_str(text, e2 + rest);
    assert(b.skip(e1.len() as int) =~= e2 + rest);
    lemma_parse_bytes(bytes, rest);
}

proof fn lemma_parse_file_data(
    path: Seq<char>,
    data: Seq<u8>,
    offset: u64,
    is_last: bool,
    rest: Seq<u8>,
)
    requires
        text_fits(path),
        data.len() <= u64::MAX,
    ensures
        ({
            let m = MessageView::FileData { path, data, offset, is_last };
            parse_body(TAG_FILE_DATA, enc_body(m) + rest) == Some((m, enc_body(m).len()))
        }),
{
    let m = MessageView::FileData { path, data, offset, is_last };
    let e12 = enc_str(path) + enc_bytes(data);
    let e3 = enc_u64(offset);
    let e4 = enc_bool(is_last);
    let b = enc_body(m) + rest;
    assert(b =~= enc_str(path) + enc_bytes(data) + (e3 + e4 + rest));
    lemma_parse_text_bytes(path, data, e3 + e4 + rest);
    assert(b.skip(e12.len() as int) =~= e3 + (e4 + rest));
    lemma_parse_u64(offset, e4 + rest);
    assert(b.skip((e12.len() + e3.len()) as int) =~= e4 + rest);
    lemma_parse_bool(is_last, rest);
}

proof fn lemma_parse_listing(files: Seq<FileMetadataView>, rest: Seq<u8>)
    requires
        files.len() <= u64::MAX,
        forall|i: int| 0 <= i < files.len() ==> (#[trigger] files[i]).fits(),
    ensures
        parse_list(enc_list(files, file_enc()) + rest, file_item()) == Some(
            (files, enc_list(files, file_enc()).len()),
        ),
{
    assert forall|i: int| 0 <= i < files.len() implies reads_back(
        #[trigger] files[i],
        file_enc(),
        file_item(),
    ) by {
        let f = files[i];
        assert forall|tail: Seq<u8>| #[trigger]
            file_item()(file_enc()(f) + tail) == Some((f, file_enc()(f).len())) by {
            lemma_parse_file(f, tail);
        }
    }
    lemma_parse_list(files, rest, file_enc(), file_item());
}

proof fn lemma_parse_body(m: MessageView, rest: Seq<u8>)
    requires
        m.fits(),
    ensures
        parse_body(tag_of(m), enc_body(m) + rest) == Some((m, enc_body(m).len())),
{
    match m {
        MessageView::Handshake { version } => {
            lemma_parse_u32(version, rest);
        },
        MessageView::FileRequest { path } => {
            lemma_parse_str(path, rest);
        },
        MessageView::FileData { path, data, offset, is_last } => {
            lemma_parse_file_data(path, data, offset, is_last, rest);
        },
        MessageView::FileSignature { path, signature } => {
            lemma_parse_text_bytes(path, signature, rest);
        },
        MessageView::FileDelta { path, delta } => {
            lemma_parse_text_bytes(path, delta, rest);
        },
        MessageView::ListRequest { path } => {
            lemma_parse_str(path, rest);
        },
        MessageView::ListResponse { files } => {
            lemma_parse_listing(files, rest);
        },
        MessageView::FileUpdateNotification { path } => {
            lemma_parse_str(path, rest);
        },
        MessageView::StartSync { path } => {
            lemma_parse_str(path, rest);
        },
        MessageView::Error { message } => {
            lemma_parse_str(message, rest);
        },
    }
}

/// Decoding undoes encoding: the binary form of a message, whatever
/// follows it, reads back as that message and nothing more is consumed.
pub proof fn lemma_decode_encode(m: MessageView, rest: Seq<u8>)
    requires
        m.fits(),
    ensures
        parse_message(serialize(m) + rest) == Some((m, serialize(m).len())),
        decoded(serialize(m)) == Some(m),
{
    let head = enc_u32(tag_of(m));
    let b = serialize(m) + rest;
    assert(b =~= head + (enc_body(m) + rest));
    lemma_parse_u32(tag_of(m), enc_body(m) + rest);
    assert(b.skip(head.len() as int) =~= enc_body(m) + rest);
    lemma_parse_body(m, rest);
    let none = Seq::<u8>::empty();
    assert(serialize(m) + none =~= serialize(m));
    assert(serialize(m) =~= head + (enc_body(m) + none));
    lemma_parse_u32(tag_of(m), enc_body(m) + none);
    assert(serialize(m).skip(head.len() as int) =~= enc_body(m) + none);
    lemma_parse_body(m, none);
}

/// Reading a frame undoes writing it: a framed message, whatever follows
/// it on the stream, reads back as that message and the frame's length.
pub proof fn lemma_unframe_frame(m: MessageView, rest: Seq<u8>)
    requires
        m.fits(),
        serialize(m).len() <= u32::MAX,
    ensures
        unframed(framed(serialize(m)) + rest) == Ok::<(MessageView, nat), ProtocolError>(
            (m, framed(serialize(m)).len()),
        ),
{
    let payload = serialize(m);
    let n = payload.len() as u32;
    let b = framed(payload) + rest;
    lemma_header_length(n);
    assert(b.take(FRAME_HEADER as int) =~= length_bytes(n));
    assert(b.subrange(FRAME_HEADER as int, FRAME_HEADER + n) =~= payload);
    lemma_decode_encode(m, rest);
}


impl FileMetadata {
    /// Appends the entry's binary form to `out`.
    pub fn encode_into(&self, out: &mut Vec<u8>)
        ensures
            final(out)@ == old(out)@ + enc_file(self@),
            self@.fits(),
    {
        let ghost before = out@;
        put_str(out, self.path.as_str());
        put_u64(out, self.len);
        put_u64(out, self.modified);
        put_bool(out, self.is_dir);
        proof {
            assert(out@ =~= before + enc_file(self@));
        }
    }

    /// Reads one entry at `pos` and gives it with the position after it.
    pub(crate) fn decode_at(buf: &[u8], pos: usize) -> (r: Option<(FileMetadata, usize)>)
        requires
            pos <= buf@.len(),
        ensures
            match parse_file(buf@.skip(pos as int)) {
                Some((f, n)) => r matches Some((got, next)) && got@ == f && next == pos + n && 1
                    <= n && pos + n <= buf@.len(),
                None => r is None,
            },
    {
        let ghost b = buf@.skip(pos as int);
        let (path, mark1) = match take_str(buf, pos) {
            Some(x) => x,
            None => { return None; },
        };
        assert(b.skip(mark1 - pos) =~= buf@.skip(mark1 as int));
        let (len, mark2) = match take_u64(buf, mark1) {
            Some(x) => x,
            None => { return None; },
        };
        assert(b.skip(mark2 - pos) =~= buf@.skip(mark2 as int));
        let (modified, mark3) = match take_u64(buf, mark2) {
            Some(x) => x,
            None => { return None; },
        };
        assert(b.skip(mark3 - pos) =~= buf@.skip(mark3 as int));
        let (is_dir, mark4) = match take_bool(buf, mark3) {
            Some(x) => x,
            None => { return None; },
        };
        Some((FileMetadata { path, len, modified, is_dir }, mark4))
    }
}

/// Appends a listing to `out`: the count, then each entry.
fn put_files(out: &mut Vec<u8>, files: &Vec<FileMetadata>)
    ensures
        final(out)@ == old(out)@ + enc_list(files_view(files@), file_enc()),
        files@.len() <= u64::MAX,
        forall|i: int| 0 <= i < files@.len() ==> (#[trigger] files_view(files@)[i]).fits(),
{
    let ghost before = out@;
    let ghost views = files_view(files@);
    put_u64(out, files.len() as u64);
    let ghost head = out@;
    let mut i: usize = 0;
    proof {
        assert(views.take(0) =~= Seq::<FileMetadataView>::empty());
        assert(out@ =~= head + enc_each(views.take(0), file_enc()));
    }
    while i < files.len()
        invariant
            i <= files@.len(),
            views == files_view(files@),
            out@ == head + enc_each(views.take(i as int), file_enc()),
            forall|j: int| 0 <= j < i ==> (#[trigger] views[j]).fits(),
        decreases files@.len() - i,
    {
        let ghost so_far = out@;
        files[i].encode_into(out);
        proof {
            lemma_enc_each_push(views.take(i as int), views[i as int], file_enc());
            assert(views.take(i + 1) =~= views.take(i as int).push(views[i as int]));
            assert(out@ =~= head + enc_each(views.take(i + 1), file_enc()));
        }
        i = i + 1;
    }
    proof {
        assert(views.take(i as int) =~= views);
        assert(out@ =~= before + enc_list(views, file_enc()));
    }
}

/// Reads a listing at `pos`: the count, then that many entries.
fn take_files(buf: &[u8], pos: usize) -> (r: Option<(Vec<FileMetadata>, usize)>)
    requires
        pos <= buf@.len(),
    ensures
        match parse_list(buf@.skip(pos as int), file_item()) {
            Some((fs, n)) => r matches Some((got, next)) && files_view(got@) == fs && next == pos
                + n && 1 <= n && pos + n <= buf@.len(),
            None => r is None,
        },
{
    let (count, start) = match take_u64(buf, pos) {
        Some(x) => x,
        None => { return None; },
    };
    let ghost s = buf@.skip(start as int);
    proof {
        assert(buf@.skip(pos as int).skip(start - pos) =~= s);
    }
    let mut files: Vec<FileMetadata> = Vec::new();
    let mut at: usize = start;
    let mut i: u64 = 0;
    proof {
        assert(s.skip(0) =~= s);
        assert(files_view(files@) =~= Seq::<FileMetadataView>::empty());
        match parse_each(s, count as nat, file_item()) {
            Some((xs, m)) => {
                assert(files_view(files@) + xs =~= xs);
            },
            None => {},
        }
    }
    while i < count
        invariant
            i <= count,
            pos <= start <= at <= buf@.len(),
            s == buf@.skip(start as int),
            s == buf@.skip(pos as int).skip(start - pos),
            parse_u64(buf@.skip(pos as int)) == Some((count, (start - pos) as nat)),
            parse_each(s, count as nat, file_item()) == after_items(
                files_view(files@),
                (at - start) as nat,
                parse_each(s.skip(at - start), (count - i) as nat, file_item()),
            ),
        decreases count - i,
    {
        proof {
            assert(s.skip(at - start) =~= buf@.skip(at as int));
        }
        let ghost done = files_view(files@);
        match FileMetadata::decode_at(buf, at) {
            Some((f, next)) => {
                proof {
                    lemma_after_items_step(
                        s,
                        (count - i) as nat,
                        file_item(),
                        done,
                        (at - start) as nat,
                    );
                }
                files.push(f);
                proof {
                    assert(files_view(files@) =~= done.push(f@));
                }
                at = next;
                i = i + 1;
            },
            None => {
                proof {
                    lemma_after_items_step(
                        s,
                        (count - i) as nat,
                        file_item(),
                        done,
                        (at - start) as nat,
                    );
                }
                return None;
            },
        }
    }
    proof {
        assert(files_view(files@) + Seq::<FileMetadataView>::empty() =~= files_view(files@));
    }
    Some((files, at))
}

/// Reads a text field and the bytes field after it.
fn take_text_bytes(buf: &[u8], pos: usize) -> (r: Option<(String, Vec<u8>, usize)>)
    requires
        pos <= buf@.len(),
    ensures
        match parse_text_bytes(buf@.skip(pos as int)) {
            Some((t, b, n)) => r matches Some((text, bytes, next)) && text@ == t && bytes@ == b
                && next == pos + n && 1 <= n && pos + n <= buf@.len(),
            None => r is None,
        },
{
    let (text, mark1) = match take_str(buf, pos) {
        Some(x) => x,
        None => { return None; },
    };
    assert(buf@.skip(pos as int).skip(mark1 - pos) =~= buf@.skip(mark1 as int));
    match take_bytes(buf, mark1) {
        Some((bytes, mark2)) => Some((text, bytes, mark2)),
        None => None,
    }
}

/// Reads the fields of the message with tag `tag` at `pos`.
fn take_body(tag: u32, buf: &[u8], pos: usize) -> (r: Option<Message>)
    requires
        pos <= buf@.len(),
    ensures
        match parse_body(tag, buf@.skip(pos as int)) {
            Some((m, _)) => r matches Some(got) && got@ == m,
            None => r is None,
        },
{
    let ghost b = buf@.skip(pos as int);
    if tag == TAG_HANDSHAKE {
        match take_u32(buf, pos) {
            Some((version, _)) => Some(Message::Handshake { version }),
            None => None,
        }
    } else if tag == TAG_FILE_REQUEST {
        match take_str(buf, pos) {
            Some((path, _)) => Some(Message::FileRequest { path }),
            None => None,
        }
    } else if tag == TAG_FILE_DATA {
        let (path, data, mark1) = match take_text_bytes(buf, pos) {
            Some(x) => x,
            None => { return None; },
        };
        assert(b.skip(mark1 - pos) =~= buf@.skip(mark1 as int));
        let (offset, mark2) = match take_u64(buf, mark1) {
            Some(x) => x,
            None => { return None; },
        };
        assert(b.skip(mark2 - pos) =~= buf@.skip(mark2 as int));
        match take_bool(buf, mark2) {
            Some((is_last, _)) => Some(Message::FileData { path, data, offset, is_last }),
            None => None,
        }
    } else if tag == TAG_FILE_SIGNATURE {
        match take_text_bytes(buf, pos) {
            Some((path, signature, _)) => Some(Message::FileSignature { path, signature }),
            None => None,
        }
    } else if tag == TAG_FILE_DELTA {
        match take_text_bytes(buf, pos) {
            Some((path, delta, _)) => Some(Message::FileDelta { path, delta }),
            None => None,
        }
    } else if tag == TAG_LIST_REQUEST {
        match take_str(buf, pos) {
            Some((path, _)) => Some(Message::ListRequest { path }),
            None => None,
        }
    } else if tag == TAG_LIST_RESPONSE {
        match take_files(buf, pos) {
            Some((files, _)) => Some(Message::ListResponse { files }),
            None => None,
        }
    } else if tag == TAG_FILE_UPDATE_NOTIFICATION {
        match take_str(buf, pos) {
            Some((path, _)) => Some(Message::FileUpdateNotification { path }),
            None => None,
        }
    } else if tag == TAG_START_SYNC {
        match take_str(buf, pos) {
            Some((path, _)) => Some(Message::StartSync { path }),
            None => None,
        }
    } else if tag == TAG_ERROR {
        match take_str(buf, pos) {
            Some((message, _)) => Some(Message::Error { message }),
            None => None,
        }
    } else {
        None
    }
}

impl Message {
    /// The binary form of the message, which decodes to the message
    /// again.
    pub fn encode(&self) -> (out: Vec<u8>)
        ensures
            out@ == serialize(self@),
            self@.fits(),
            decoded(out@) == Some(self@),
    {
        let mut out: Vec<u8> = Vec::new();
        match self {
            Message::Handshake { version } => {
                put_u32(&mut out, TAG_HANDSHAKE);
                put_u32(&mut out, *version);
            },
            Message::FileRequest { path } => {
                put_u32(&mut out, TAG_FILE_REQUEST);
                put_str(&mut out, path.as_str());
            },
            Message::FileData { path, data, offset, is_last } => {
                put_u32(&mut out, TAG_FILE_DATA);
                put_str(&mut out, path.as_str());
                put_bytes(&mut out, data.as_slice());
                put_u64(&mut out, *offset);
                put_bool(&mut out, *is_last);
            },
            Message::FileSignature { path, signature } => {
                put_u32(&mut out, TAG_FILE_SIGNATURE);
                put_str(&mut out, path.as_str());
                put_bytes(&mut out, signature.as_slice());
            },
            Message::FileDelta { path, delta } => {
                put_u32(&mut out, TAG_FILE_DELTA);
                put_str(&mut out, path.as_str());
                put_bytes(&mut out, delta.as_slice());
            },
            Message::ListRequest { path } => {
                put_u32(&mut out, TAG_LIST_REQUEST);
                put_str(&mut out, path.as_str());
            },
            Message::ListResponse { files } => {
                put_u32(&mut out, TAG_LIST_RESPONSE);
                put_files(&mut out, files);
            },
            Message::FileUpdateNotification { path } => {
                put_u32(&mut out, TAG_FILE_UPDATE_NOTIFICATION);
                put_str(&mut out, path.as_str());
            },
            Message::StartSync { path } => {
                put_u32(&mut out, TAG_START_SYNC);
                put_str(&mut out, path.as_str());
            },
            Message::Error { message } => {
                put_u32(&mut out, TAG_ERROR);
                put_str(&mut out, message.as_str());
            },
        }
        proof {
            assert(out@ =~= serialize(self@));
            lemma_decode_encode(self@, Seq::<u8>::empty());
        }
        out
    }

    /// The message that `bytes` begins with. Bytes after the message are
    /// ignored; an unknown tag, a malformed field or a payload that ends
    /// inside a field is `ProtocolDecode`.
    pub fn decode(bytes: &[u8]) -> (r: Result<Message, ProtocolError>)
        ensures
            match decoded(bytes@) {
                Some(m) => r matches Ok(got) && got@ == m,
                None => r == Err::<Message, ProtocolError>(ProtocolError::ProtocolDecode),
            },
    {
        proof {
            assert(bytes@.skip(0) =~= bytes@);
        }
        match take_u32(bytes, 0) {
            Some((tag, at)) => match take_body(tag, bytes, at) {
                Some(m) => Ok(m),
                None => Err(ProtocolError::ProtocolDecode),
            },
            None => Err(ProtocolError::ProtocolDecode),
        }
    }
}

/// The payload length that the four header bytes announce.
pub fn frame_length(header: &[u8; 4]) -> (n: u32)
    ensures
        n == header_length(header@),
{
    let b0: u32 = header[0] as u32;
    let b1: u32 = header[1] as u32;
    let b2: u32 = header[2] as u32;
    let b3: u32 = header[3] as u32;
    b0 * 0x100_0000 + b1 * 0x1_0000 + b2 * 0x100 + b3
}

/// The frame that carries `msg`: its length in four big-endian bytes, then
/// its binary form. Reading the frame gives the message again. A message
/// longer than the length field can say is refused.
pub fn write_message(msg: &Message) -> (r: Result<Vec<u8>, ProtocolError>)
    ensures
        serialize(msg@).len() <= u32::MAX ==> (r matches Ok(frame) && frame@ == framed(
            serialize(msg@),
        ) && unframed(frame@) == Ok::<(MessageView, nat), ProtocolError>((msg@, frame@.len()))),
        serialize(msg@).len() > u32::MAX ==> r == Err::<Vec<u8>, ProtocolError>(
            ProtocolError::FrameTooLarge,
        ),
{
    let payload = msg.encode();
    if payload.len() > u32::MAX as usize {
        return Err(ProtocolError::FrameTooLarge);
    }
    let n: u32 = payload.len() as u32;
    let mut frame: Vec<u8> = Vec::new();
    frame.push((n / 0x100_0000) as u8);
    frame.push((n / 0x1_0000 % 256) as u8);
    frame.push((n / 0x100 % 256) as u8);
    frame.push((n % 256) as u8);
    proof {
        assert(frame@ =~= length_bytes(n));
    }
    put_raw(&mut frame, payload.as_slice());
    proof {
        lemma_unframe_frame(msg@, Seq::<u8>::empty());
        assert(framed(serialize(msg@)) + Seq::<u8>::empty() =~= frame@);
    }
    Ok(frame)
}

/// Reads one frame from the front of `buf` and gives its message with the
/// number of bytes the frame took. A buffer that ends before the frame
/// does is `ProtocolTruncated`; a complete frame whose payload is no
/// message is `ProtocolDecode`.
pub fn read_message(buf: &[u8]) -> (r: Result<(Message, usize), ProtocolError>)
    ensures
        match unframed(buf@) {
            Ok((m, n)) => r matches Ok((got, used)) && got@ == m && used == n,
            Err(e) => r matches Err(got) && got == e,
        },
{
    if buf.len() < FRAME_HEADER {
        return Err(ProtocolError::ProtocolTruncated);
    }
    let header: [u8; 4] = [buf[0], buf[1], buf[2], buf[3]];
    proof {
        assert(header@ =~= buf@.take(FRAME_HEADER as int));
    }
    let n: u32 = frame_length(&header);
    if ((buf.len() - FRAME_HEADER) as u64) < n as u64 {
        return Err(ProtocolError::ProtocolTruncated);
    }
    let end: usize = FRAME_HEADER + n as usize;
    let payload = vstd::slice::slice_subrange(buf, FRAME_HEADER, end);
    match Message::decode(payload) {
        Ok(m) => Ok((m, end)),
        Err(e) => Err(e),
    }
}

} // verus!
