//! The initiator side of a session: the pull of a remote path into a
//! local one, and the two one-shot sessions that announce an update and
//! ask for a reverse sync. The responder speaks first on every session;
//! the initiator reads its handshake and only then sends.

use vstd::prelude::*;
use crate::paths::{join, joined, parent, parent_of, relative_to, strip_root};
use crate::peer::PeerId;
use crate::protocol::{files_view, FileMetadata, FileMetadataView, Message, MessageView, PROTOCOL_VERSION};
use crate::session::{handshake, sync_registered};
use crate::store::{Store, StoreError};
use crate::sync_utils::{
    apply_delta, apply_outcome, calculate_signature, signature_of, DeltaError, BLOCK_SIZE,
    CRYPTO_HASH_SIZE,
};

verus! {

/// Where a pull stands.
#[derive(Debug, Clone, Copy, PartialEq, Eq, Structural)]
pub enum PullState {
    /// The responder's handshake is awaited.
    AwaitHandshake,
    /// The listing of the remote path is awaited.
    AwaitListing,
    /// The next entry of the listing is to be taken up.
    Planning,
    /// The driver is creating the directory above the current entry's
    /// target.
    NeedParent,
    /// The driver is reading the local copy of the current entry.
    NeedLocal,
    /// The delta for the current entry is awaited.
    AwaitDelta,
    /// The whole file for the current entry is awaited.
    AwaitData,
    /// Every entry is done.
    Done,
    /// The pull ended on an error.
    Failed,
}

/// Why a pull ended on an error.
#[derive(Debug, Clone, PartialEq, Eq)]
pub enum PullError {
    /// A message or an answer of the driver that the state does not allow.
    ProtocolUnexpected,
    /// The responder answered with an error message.
    Remote(String),
    /// The delta could not be applied; the local file is as it was.
    Delta(DeltaError),
}

/// What the driver does next.
#[derive(Debug, Clone, PartialEq, Eq)]
pub enum PullStep {
    /// Write the messages in order, then read a frame and hand it to
    /// `on_frame`.
    Send(Vec<Message>),
    /// Read the regular file at the path and hand its contents to
    /// `on_local`.
    ReadLocal(String),
    /// Create the directory with its parents, then call `advance`.
    CreateDir(String),
    /// Put the data in the place of the path in one move, then call
    /// `advance`. The directory above the path was created before.
    Write { path: String, data: Vec<u8> },
    /// The pull is complete.
    Done,
    /// The pull is over, on this error.
    Fail(PullError),
}

pub struct PullSession {
    state: PullState,
    remote_path: String,
    local_path: String,
    files: Vec<FileMetadata>,
    index: usize,
    target: String,
    local: Vec<u8>,
}

/// Where an entry of the listing goes: the local path itself for the
/// entry of the remote path, the matching path under the local path for
/// an entry under the remote path, and the local path for any other.
pub open spec fn entry_target(entry: Seq<char>, remote_path: Seq<char>, local_path: Seq<char>) -> Seq<
    char,
> {
    match relative_to(entry, remote_path) {
        Some(rest) => joined(local_path, rest),
        None => local_path,
    }
}

/// The messages that open a pull once the responder's handshake is in.
pub open spec fn opening(remote_path: Seq<char>) -> Seq<MessageView> {
    seq![handshake(), MessageView::ListRequest { path: remote_path }]
}

/// The messages of a session that announces an update of `remote_path`.
pub open spec fn announcement(remote_path: Seq<char>) -> Seq<MessageView> {
    seq![handshake(), MessageView::FileUpdateNotification { path: remote_path }]
}

/// The messages of a session that asks for a reverse sync of
/// `remote_path`.
pub open spec fn sync_request(remote_path: Seq<char>) -> Seq<MessageView> {
    seq![handshake(), MessageView::StartSync { path: remote_path }]
}

/// The request that fetches an entry: its signature when there is a local
/// copy to patch, a request for the whole file when there is none.
pub open spec fn fetch_request(entry: Seq<char>, local: Option<Seq<u8>>) -> MessageView {
    match local {
        Some(data) => MessageView::FileSignature {
            path: entry,
            signature: signature_of(data, BLOCK_SIZE, CRYPTO_HASH_SIZE),
        },
        None => MessageView::FileRequest { path: entry },
    }
}

pub open spec fn messages_view(messages: Seq<Message>) -> Seq<MessageView> {
    messages.map_values(|m: Message| m@)
}

/// There are messages to send, with these views.
pub open spec fn gives(r: Option<Vec<Message>>, messages: Seq<MessageView>) -> bool {
    r matches Some(sent) && messages_view(sent@) == messages
}

/// The step is to send messages with these views.
pub open spec fn sends_all(step: PullStep, messages: Seq<MessageView>) -> bool {
    step matches PullStep::Send(sent) && messages_view(sent@) == messages
}

/// The step is to write `data` to `path`.
pub open spec fn writes(step: PullStep, path: Seq<char>, data: Seq<u8>) -> bool {
    step matches PullStep::Write { path: p, data: d } && p@ == path && d@ == data
}

/// The step is to create the directory `path`.
pub open spec fn creates(step: PullStep, path: Seq<char>) -> bool {
    step matches PullStep::CreateDir(p) && p@ == path
}

/// The step is to read the local file `path`.
pub open spec fn reads_local(step: PullStep, path: Seq<char>) -> bool {
    step matches PullStep::ReadLocal(p) && p@ == path
}

/// The step ends the pull on the responder's error message.
pub open spec fn fails_remote(step: PullStep, message: Seq<char>) -> bool {
    step matches PullStep::Fail(e) && e matches PullError::Remote(text) && text@ == message
}

/// The two messages of a one-shot session, once the responder's handshake
/// `first` is in; nothing when `first` is no handshake.
fn after_handshake(first: &Message, request: Message) -> (r: Option<Vec<Message>>)
    ensures
        first is Handshake ==> gives(r, seq![handshake(), request@]),
        !(first is Handshake) ==> r is None,
{
    match first {
        Message::Handshake { .. } => {
            let mut sent: Vec<Message> = Vec::new();
            sent.push(Message::Handshake { version: PROTOCOL_VERSION });
            sent.push(request);
            proof {
                assert(messages_view(sent@) =~= seq![handshake(), request@]);
            }
            Some(sent)
        },
        _ => None,
    }
}

/// What a session that announces an update of `remote_path` sends after
/// the responder's first frame `first`: its own handshake and the
/// notification, after which it closes. Nothing is sent when the first
/// frame is no handshake.
pub fn notify_peer(first: &Message, remote_path: String) -> (r: Option<Vec<Message>>)
    ensures
        first is Handshake ==> gives(r, announcement(remote_path@)),
        !(first is Handshake) ==> r is None,
{
    after_handshake(first, Message::FileUpdateNotification { path: remote_path })
}

/// What a session that asks for a reverse sync of `remote_path` sends
/// after the responder's first frame `first`: its own handshake and the
/// request, after which it closes.
pub fn register_reverse_sync(first: &Message, remote_path: String) -> (r: Option<Vec<Message>>)
    ensures
        first is Handshake ==> gives(r, sync_request(remote_path@)),
        !(first is Handshake) ==> r is None,
{
    after_handshake(first, Message::StartSync { path: remote_path })
}

/// Records on this side that `local_path` is synced with `remote_path` of
/// `peer`: the registration is added under the local path, which is
/// watched from now on. It fails when the database does, and else only
/// when the registrations of the local path cannot be read.
pub fn record_sync(store: &mut Store, peer: PeerId, remote_path: String, local_path: &str) -> (r:
    Result<(), StoreError>)
    ensures
        r is Ok ==> sync_registered(*old(store), *final(store), peer@, remote_path@, local_path@),
        r matches Err(e) ==> e is DbError || (e is SerializationError && old(store).configs(
            local_path@,
        ) is None),
        final(store).permission_map() == old(store).permission_map(),
{
    match store.add_sync(peer, remote_path, local_path) {
        Ok(()) => {},
        Err(e) => { return Err(e); },
    }
    store.add_watch(local_path)
}


/// Whether the pull is over in this state.
pub open spec fn pull_over(state: PullState) -> bool {
    state == PullState::Done || state == PullState::Failed
}

/// The step ends the pull on a message or answer out of place.
pub open spec fn fails_out_of_place(step: PullStep) -> bool {
    step == PullStep::Fail(PullError::ProtocolUnexpected)
}

/// The view of what the driver read.
pub open spec fn local_view(contents: Option<Vec<u8>>) -> Option<Seq<u8>> {
    match contents {
        Some(data) => Some(data@),
        None => None,
    }
}

impl PullSession {
    pub closed spec fn state(&self) -> PullState {
        self.state
    }

    /// The remote path that is pulled.
    pub closed spec fn remote(&self) -> Seq<char> {
        self.remote_path@
    }

    /// The local path that it is pulled into.
    pub closed spec fn local(&self) -> Seq<char> {
        self.local_path@
    }

    /// The listing of the remote path, once it is in.
    pub closed spec fn listing(&self) -> Seq<FileMetadataView> {
        files_view(self.files@)
    }

    /// The place in the listing of the entry that is taken up next.
    pub closed spec fn position(&self) -> nat {
        self.index as nat
    }

    /// The local path of the entry that is being fetched.
    pub closed spec fn target(&self) -> Seq<char> {
        self.target@
    }

    /// The local copy that the awaited delta is applied to.
    pub closed spec fn base(&self) -> Seq<u8> {
        self.local@
    }

    /// While an entry is being fetched it is an entry of the listing, and
    /// the target is where it goes. Every pull made by `new` keeps to
    /// that.
    pub closed spec fn sound(&self) -> bool {
        (self.state == PullState::NeedParent || self.state == PullState::NeedLocal || self.state
            == PullState::AwaitDelta || self.state == PullState::AwaitData) ==> self.index
            < self.files@.len() && self.target@
            == entry_target(self.files@[self.index as int].path@, self.remote_path@, self.local_path@)
    }

    /// The path of the entry that is being fetched.
    pub open spec fn current(&self) -> Seq<char> {
        self.listing()[self.position() as int].path
    }

    /// How the entry at `at` of `files` is taken up in a pull of `remote`
    /// into `local`: a directory is created and the next entry is in
    /// turn; for a file the directory above its target is created first,
    /// and where there is none the driver is asked for the local copy at
    /// once; after the last entry the pull is done.
    pub open spec fn takes_next(
        files: Seq<FileMetadataView>,
        remote: Seq<char>,
        local: Seq<char>,
        at: nat,
        after: PullSession,
        step: PullStep,
    ) -> bool {
        if at >= files.len() {
            after.state() == PullState::Done && after.position() == at && step == PullStep::Done
        } else if files[at as int].is_dir {
            after.state() == PullState::Planning && after.position() == at + 1 && creates(
                step,
                entry_target(files[at as int].path, remote, local),
            )
        } else {
            let target = entry_target(files[at as int].path, remote, local);
            after.position() == at && after.target() == target && match parent_of(target) {
                Some(dir) => after.state() == PullState::NeedParent && creates(step, dir),
                None => after.state() == PullState::NeedLocal && reads_local(step, target),
            }
        }
    }

    /// A pull of `remote_path` into `local_path`, before anything was
    /// read.
    pub fn new(remote_path: String, local_path: String) -> (p: PullSession)
        ensures
            p.state() == PullState::AwaitHandshake,
            p.remote() == remote_path@,
            p.local() == local_path@,
            p.sound(),
    {
        PullSession {
            state: PullState::AwaitHandshake,
            remote_path,
            local_path,
            files: Vec::new(),
            index: 0,
            target: String::new(),
            local: Vec::new(),
        }
    }

    /// Where the pull stands.
    pub fn current_state(&self) -> (r: PullState)
        ensures
            r == self.state(),
    {
        self.state
    }

    fn refuse(&mut self) -> (step: PullStep)
        ensures
            final(self).remote() == old(self).remote(),
            final(self).local() == old(self).local(),
            final(self).listing() == old(self).listing(),
            final(self).sound(),
            old(self).state() == PullState::Done ==> final(self).state() == PullState::Done
                && step == PullStep::Done,
            old(self).state() != PullState::Done ==> final(self).state() == PullState::Failed
                && fails_out_of_place(step),
    {
        match self.state {
            PullState::Done => PullStep::Done,
            _ => {
                self.state = PullState::Failed;
                PullStep::Fail(PullError::ProtocolUnexpected)
            },
        }
    }

    fn fail_remote(&mut self, message: String) -> (step: PullStep)
        ensures
            final(self).remote() == old(self).remote(),
            final(self).local() == old(self).local(),
            final(self).listing() == old(self).listing(),
            final(self).sound(),
            final(self).state() == PullState::Failed,
            fails_remote(step, message@),
    {
        self.state = PullState::Failed;
        PullStep::Fail(PullError::Remote(message))
    }

    fn plan(&mut self) -> (step: PullStep)
        ensures
            final(self).remote() == old(self).remote(),
            final(self).local() == old(self).local(),
            final(self).listing() == old(self).listing(),
            final(self).sound(),
            PullSession::takes_next(
                old(self).listing(),
                old(self).remote(),
                old(self).local(),
                old(self).position(),
                *final(self),
                step,
            ),
    {
        if self.index >= self.files.len() {
            self.state = PullState::Done;
            return PullStep::Done;
        }
        let entry = &self.files[self.index];
        let target = match strip_root(entry.path.as_str(), self.remote_path.as_str()) {
            Some(rest) => join(self.local_path.as_str(), rest.as_str()),
            None => self.local_path.clone(),
        };
        if entry.is_dir {
            self.index = self.index + 1;
            self.state = PullState::Planning;
            PullStep::CreateDir(target)
        } else {
            let above = parent(target.as_str());
            self.target = target.clone();
            match above {
                Some(dir) => {
                    self.state = PullState::NeedParent;
                    PullStep::CreateDir(dir)
                },
                None => {
                    self.state = PullState::NeedLocal;
                    PullStep::ReadLocal(target)
                },
            }
        }
    }

    /// The driver did what the last step asked. After the directory above
    /// a file's target was created, the driver is asked for the local
    /// copy; else the next entry is taken up.
    pub fn advance(&mut self) -> (step: PullStep)
        ensures
            final(self).remote() == old(self).remote(),
            final(self).local() == old(self).local(),
            final(self).listing() == old(self).listing(),
            old(self).sound() ==> final(self).sound(),
            old(self).state() == PullState::NeedParent ==> final(self).state()
                == PullState::NeedLocal && final(self).position() == old(self).position()
                && final(self).target() == old(self).target() && reads_local(
                step,
                old(self).target(),
            ),
            old(self).state() == PullState::Planning ==> PullSession::takes_next(
                old(self).listing(),
                old(self).remote(),
                old(self).local(),
                old(self).position(),
                *final(self),
                step,
            ),
            old(self).state() != PullState::Planning && old(self).state()
                != PullState::NeedParent ==> pull_over(final(self).state()) && step !is Send,
    {
        match self.state {
            PullState::Planning => self.plan(),
            PullState::NeedParent => {
                self.state = PullState::NeedLocal;
                PullStep::ReadLocal(self.target.clone())
            },
            _ => self.refuse(),
        }
    }

    /// The driver read the local copy of the current entry: `contents` is
    /// what the regular file at the target holds, or `None` when there is
    /// none. With a local copy its signature is sent and a delta is
    /// awaited; without one the whole file is asked for.
    pub fn on_local(&mut self, contents: Option<Vec<u8>>) -> (step: PullStep)
        ensures
            final(self).remote() == old(self).remote(),
            final(self).local() == old(self).local(),
            final(self).listing() == old(self).listing(),
            old(self).sound() ==> final(self).sound(),
            old(self).state() == PullState::NeedLocal && old(self).sound() ==> final(self).position() == old(self).position() && final(self).target() == old(self).target()
                && sends_all(step, seq![fetch_request(old(self).current(), local_view(contents))])
                && match contents {
                Some(data) => final(self).state() == PullState::AwaitDelta && final(self).base()
                    == data@,
                None => final(self).state() == PullState::AwaitData,
            },
            old(self).state() != PullState::NeedLocal ==> pull_over(final(self).state())
                && step !is Send,
    {
        match self.state {
            PullState::NeedLocal => {},
            _ => { return self.refuse(); },
        }
        if self.index >= self.files.len() {
            return self.refuse();
        }
        let path = self.files[self.index].path.clone();
        let request = match contents {
            Some(data) => {
                let signature = match calculate_signature(data.as_slice()) {
                    Ok(signature) => signature,
                    Err(_) => { return self.refuse(); },
                };
                self.local = data;
                self.state = PullState::AwaitDelta;
                Message::FileSignature { path, signature }
            },
            None => {
                self.state = PullState::AwaitData;
                Message::FileRequest { path }
            },
        };
        let mut sent: Vec<Message> = Vec::new();
        sent.push(request);
        proof {
            assert(messages_view(sent@) =~= seq![request@]);
        }
        PullStep::Send(sent)
    }

    /// A frame came in. The first frame has to be the responder's
    /// handshake, which is answered by the initiator's and the request
    /// for the listing. The listing starts the walk through its entries;
    /// a delta is applied to the local copy and file data is taken as it
    /// is, and either is then to be written to the entry's target. An
    /// error message of the responder, or a delta that does not apply,
    /// ends the pull and nothing is written.
    pub fn on_frame(&mut self, msg: Message) -> (step: PullStep)
        ensures
            final(self).remote() == old(self).remote(),
            final(self).local() == old(self).local(),
            final(self).sound(),
            old(self).state() == PullState::AwaitHandshake ==> if msg is Handshake {
                final(self).state() == PullState::AwaitListing && sends_all(
                    step,
                    opening(old(self).remote()),
                )
            } else {
                final(self).state() == PullState::Failed && fails_out_of_place(step)
            },
            old(self).state() == PullState::AwaitListing ==> match msg {
                Message::ListResponse { files } => final(self).listing() == files_view(files@)
                    && PullSession::takes_next(
                    files_view(files@),
                    old(self).remote(),
                    old(self).local(),
                    0,
                    *final(self),
                    step,
                ),
                Message::Error { message } => final(self).state() == PullState::Failed
                    && fails_remote(step, message@),
                _ => final(self).state() == PullState::Failed && fails_out_of_place(step),
            },
            old(self).state() == PullState::AwaitDelta && old(self).sound() ==> match msg {
                Message::FileDelta { path, delta } => match apply_outcome(
                    old(self).base(),
                    delta@,
                ) {
                    Ok(data) => final(self).state() == PullState::Planning && final(self).position() == old(self).position() + 1 && final(self).listing() == old(self).listing() && writes(step, old(self).target(), data),
                    Err(e) => final(self).state() == PullState::Failed && step == PullStep::Fail(
                        PullError::Delta(e),
                    ),
                },
                Message::Error { message } => final(self).state() == PullState::Failed
                    && fails_remote(step, message@),
                _ => final(self).state() == PullState::Failed && fails_out_of_place(step),
            },
            old(self).state() == PullState::AwaitData && old(self).sound() ==> match msg {
                Message::FileData { path, data, offset, is_last } => final(self).state()
                    == PullState::Planning && final(self).position() == old(self).position() + 1
                    && final(self).listing() == old(self).listing() && writes(
                    step,
                    old(self).target(),
                    data@,
                ),
                Message::Error { message } => final(self).state() == PullState::Failed
                    && fails_remote(step, message@),
                _ => final(self).state() == PullState::Failed && fails_out_of_place(step),
            },
            (old(self).state() == PullState::Planning || old(self).state()
                == PullState::NeedParent || old(self).state() == PullState::NeedLocal || pull_over(
                old(self).state(),
            )) ==> pull_over(final(self).state()) && step !is Send && step !is Write,
    {
        match self.state {
            PullState::AwaitHandshake => match msg {
                Message::Handshake { .. } => {
                    let mut sent: Vec<Message> = Vec::new();
                    sent.push(Message::Handshake { version: PROTOCOL_VERSION });
                    sent.push(Message::ListRequest { path: self.remote_path.clone() });
                    proof {
                        assert(messages_view(sent@) =~= opening(self.remote()));
                    }
                    self.state = PullState::AwaitListing;
                    PullStep::Send(sent)
                },
                _ => self.refuse(),
            },
            PullState::AwaitListing => match msg {
                Message::ListResponse { files } => {
                    self.files = files;
                    self.index = 0;
                    self.plan()
                },
                Message::Error { message } => self.fail_remote(message),
                _ => self.refuse(),
            },
            PullState::AwaitDelta => match msg {
                Message::FileDelta { path, delta } => {
                    if self.index >= self.files.len() {
                        return self.refuse();
                    }
                    match apply_delta(self.local.as_slice(), delta.as_slice()) {
                        Ok(data) => {
                            self.index = self.index + 1;
                            self.state = PullState::Planning;
                            PullStep::Write { path: self.target.clone(), data }
                        },
                        Err(e) => {
                            self.state = PullState::Failed;
                            PullStep::Fail(PullError::Delta(e))
                        },
                    }
                },
                Message::Error { message } => self.fail_remote(message),
                _ => self.refuse(),
            },
            PullState::AwaitData => match msg {
                Message::FileData { path, data, offset, is_last } => {
                    if self.index >= self.files.len() {
                        return self.refuse();
                    }
                    self.index = self.index + 1;
                    self.state = PullState::Planning;
                    PullStep::Write { path: self.target.clone(), data }
                },
                Message::Error { message } => self.fail_remote(message),
                _ => self.refuse(),
            },
            _ => {
                let step = self.refuse();
                step
            },
        }
    }
}

} // verus!
