//! The responder side of a session: the state machine that answers one
//! accepted stream. The machine decides; a driver reads and writes
//! frames, reads files, walks directories and resolves paths as the
//! machine asks, and hands back what came of it.

use vstd::prelude::*;
use crate::paths::{below, join, joined, strip_base};
use crate::peer::PeerId;
use crate::protocol::{files_view, FileMetadata, Message, MessageView, PROTOCOL_VERSION};
use crate::records::{configs_view, contains_peer, SyncConfigView};
use crate::store::{add_sync_effect, lists_syncs, path_key, registration, Store, StoreError};
use crate::sync_manager::{syncs_view, SyncEntry, SyncEntryView};
use crate::sync_utils::{calculate_delta, delta_of, signature_usable};

verus! {

/// "Fetch `remote_path` from the notifying peer into `local_path`."
#[derive(Debug, Clone, PartialEq, Eq)]
pub struct PullTask {
    pub remote_path: String,
    pub local_path: String,
}

pub struct PullTaskView {
    pub remote_path: Seq<char>,
    pub local_path: Seq<char>,
}

impl View for PullTask {
    type V = PullTaskView;

    open spec fn view(&self) -> PullTaskView {
        PullTaskView { remote_path: self.remote_path@, local_path: self.local_path@ }
    }
}

pub open spec fn pulls_view(tasks: Seq<PullTask>) -> Seq<PullTaskView> {
    tasks.map_values(|t: PullTask| t@)
}

/// The text of the error that answers a request for a path that is not
/// there.
pub open spec fn not_found_text(path: Seq<char>) -> Seq<char> {
    "File not found: "@ + path
}

/// The text of the error that answers a signature no delta can be
/// computed against.
pub open spec fn delta_failed_text() -> Seq<char> {
    "Delta calculation failed: invalid or unsupported signature"@
}

/// The text of the error that answers a sync request that is not allowed.
pub open spec fn denied_text() -> Seq<char> {
    "Access denied or path not allowed"@
}

/// The answer to a file request: the whole file in one frame, or an error
/// when there is no regular file at the path.
pub open spec fn file_answer(path: Seq<char>, contents: Option<Seq<u8>>) -> MessageView {
    match contents {
        Some(data) => MessageView::FileData { path, data, offset: 0, is_last: true },
        None => MessageView::Error { message: not_found_text(path) },
    }
}

/// The answer to a signature: the delta of the file against it, or an
/// error when there is no regular file at the path or the signature is
/// not usable.
pub open spec fn delta_answer(
    path: Seq<char>,
    signature: Seq<u8>,
    contents: Option<Seq<u8>>,
) -> MessageView {
    match contents {
        Some(data) => if signature_usable(signature) {
            MessageView::FileDelta { path, delta: delta_of(signature, data) }
        } else {
            MessageView::Error { message: delta_failed_text() }
        },
        None => MessageView::Error { message: not_found_text(path) },
    }
}

/// The answer to a list request: the entries under the path, or an error
/// when the path is not there.
pub open spec fn listing_answer(
    path: Seq<char>,
    listing: Option<Seq<crate::protocol::FileMetadataView>>,
) -> MessageView {
    match listing {
        Some(files) => MessageView::ListResponse { files },
        None => MessageView::Error { message: not_found_text(path) },
    }
}

/// Where an update of `path`, announced by `peer`, is to be pulled to
/// under one registration of `local_root`: the root itself when the path
/// is the registration's remote path, the matching path under the root
/// when it lies below the remote path, and nowhere otherwise or when the
/// registration is another peer's.
pub open spec fn pull_target(
    config: SyncConfigView,
    local_root: Seq<char>,
    peer: Seq<u8>,
    path: Seq<char>,
) -> Option<Seq<char>> {
    if config.peer != peer {
        None
    } else if path == config.remote_path {
        Some(local_root)
    } else {
        match below(path, config.remote_path) {
            Some(rest) => Some(joined(local_root, rest)),
            None => None,
        }
    }
}

/// The pulls that the registrations of one local root ask for.
pub open spec fn pulls_under(
    configs: Seq<SyncConfigView>,
    local_root: Seq<char>,
    peer: Seq<u8>,
    path: Seq<char>,
) -> Seq<PullTaskView>
    decreases configs.len(),
{
    if configs.len() == 0 {
        Seq::<PullTaskView>::empty()
    } else {
        let front = pulls_under(configs.drop_last(), local_root, peer, path);
        match pull_target(configs.last(), local_root, peer, path) {
            Some(target) => front.push(PullTaskView { remote_path: path, local_path: target }),
            None => front,
        }
    }
}

/// The pulls that an update of `path`, announced by `peer`, asks for: one
/// for every registration of that peer that the path matches.
pub open spec fn pulls_for(syncs: Seq<SyncEntryView>, peer: Seq<u8>, path: Seq<char>) -> Seq<
    PullTaskView,
>
    decreases syncs.len(),
{
    if syncs.len() == 0 {
        Seq::<PullTaskView>::empty()
    } else {
        pulls_for(syncs.drop_last(), peer, path) + pulls_under(
            syncs.last().1,
            syncs.last().0,
            peer,
            path,
        )
    }
}

/// An update that the sender announces for what lies `rest` below its
/// root arrives, on the side that registered the sync, at what lies
/// `rest` below the local root: the two mappings fit together.
pub proof fn law_update_lands_below_root(
    config: SyncConfigView,
    local_root: Seq<char>,
    rest: Seq<char>,
)
    requires
        !crate::paths::starts_with_separator(rest),
        !crate::paths::ends_with_separator(config.remote_path),
    ensures
        pull_target(config, local_root, config.peer, joined(config.remote_path, rest)) == Some(
            joined(local_root, rest),
        ),
{
    if rest.len() > 0 {
        crate::paths::law_below_of_joined(config.remote_path, rest);
        let path = joined(config.remote_path, rest);
        assert(path.len() != config.remote_path.len());
    }
}

/// The error message that says `path` is not there.
fn not_found(path: &str) -> (m: Message)
    ensures
        m@ == (MessageView::Error { message: not_found_text(path@) }),
{
    let mut message = "File not found: ".to_owned();
    message.append(path);
    Message::Error { message }
}

/// The answer to a file request for `path`, given what is at the path:
/// the contents of the regular file there, or `None`.
pub fn file_reply(path: String, contents: Option<Vec<u8>>) -> (m: Message)
    ensures
        m@ == file_answer(
            path@,
            match contents {
                Some(data) => Some(data@),
                None => None,
            },
        ),
{
    match contents {
        Some(data) => Message::FileData { path, data, offset: 0, is_last: true },
        None => not_found(path.as_str()),
    }
}

/// The answer to a signature for `path`, given what is at the path.
pub fn delta_reply(path: String, signature: &[u8], contents: Option<Vec<u8>>) -> (m: Message)
    ensures
        m@ == delta_answer(
            path@,
            signature@,
            match contents {
                Some(data) => Some(data@),
                None => None,
            },
        ),
{
    match contents {
        Some(data) => match calculate_delta(signature, data.as_slice()) {
            Ok(delta) => Message::FileDelta { path, delta },
            Err(_) => Message::Error {
                message: "Delta calculation failed: invalid or unsupported signature".to_owned(),
            },
        },
        None => not_found(path.as_str()),
    }
}

/// The answer to a list request for `path`, given the entries found
/// under it, or `None` when the path is not there.
pub fn listing_reply(path: String, listing: Option<Vec<FileMetadata>>) -> (m: Message)
    ensures
        m@ == listing_answer(
            path@,
            match listing {
                Some(files) => Some(files_view(files@)),
                None => None,
            },
        ),
{
    match listing {
        Some(files) => Message::ListResponse { files },
        None => not_found(path.as_str()),
    }
}

/// The pulls that an update of `path`, announced by `peer`, asks for
/// under the registrations `syncs`.
pub fn pull_tasks(syncs: &Vec<SyncEntry>, peer: &PeerId, path: &str) -> (r: Vec<PullTask>)
    ensures
        pulls_view(r@) == pulls_for(syncs_view(syncs@), peer@, path@),
{
    let ghost all = syncs_view(syncs@);
    let mut tasks: Vec<PullTask> = Vec::new();
    let mut i: usize = 0;
    proof {
        assert(all.take(0) =~= Seq::<SyncEntryView>::empty());
        assert(pulls_view(tasks@) =~= Seq::<PullTaskView>::empty());
    }
    while i < syncs.len()
        invariant
            i <= syncs@.len(),
            all == syncs_view(syncs@),
            pulls_view(tasks@) == pulls_for(all.take(i as int), peer@, path@),
        decreases syncs@.len() - i,
    {
        let ghost front = pulls_view(tasks@);
        let local_root = &syncs[i].0;
        let configs = &syncs[i].1;
        let ghost views = configs_view(configs@);
        let mut j: usize = 0;
        proof {
            assert(all.take(i + 1).drop_last() =~= all.take(i as int));
            assert(all.take(i + 1).last() == all[i as int]);
            assert(views.take(0) =~= Seq::<SyncConfigView>::empty());
            assert(front + pulls_under(views.take(0), local_root@, peer@, path@) =~= front);
        }
        while j < configs.len()
            invariant
                j <= configs@.len(),
                views == configs_view(configs@),
                pulls_view(tasks@) == front + pulls_under(
                    views.take(j as int),
                    local_root@,
                    peer@,
                    path@,
                ),
            decreases configs@.len() - j,
        {
            let ghost so_far = pulls_view(tasks@);
            let ghost under = pulls_under(views.take(j as int), local_root@, peer@, path@);
            proof {
                assert(views.take(j + 1).drop_last() =~= views.take(j as int));
                assert(views.take(j + 1).last() == views[j as int]);
            }
            let config = &configs[j];
            if config.peer.same(peer) {
                let target: Option<String> = if path.to_owned() == config.remote_path {
                    Some(local_root.clone())
                } else {
                    match strip_base(path, config.remote_path.as_str()) {
                        Some(rest) => Some(join(local_root.as_str(), rest.as_str())),
                        None => None,
                    }
                };
                match target {
                    Some(local_path) => {
                        let task = PullTask { remote_path: path.to_owned(), local_path };
                        tasks.push(task);
                        proof {
                            assert(pulls_view(tasks@) =~= so_far.push(task@));
                            assert(so_far.push(task@) =~= front + under.push(task@));
                        }
                    },
                    None => {},
                }
            }
            j = j + 1;
        }
        proof {
            assert(views.take(j as int) =~= views);
        }
        i = i + 1;
    }
    proof {
        assert(all.take(i as int) =~= all);
    }
    tasks
}


/// Whether `peer` may start a sync of the path that resolved to
/// `canonical`: the path resolved, and the peer is among the peers
/// allowed on exactly that path.
pub open spec fn authorized(store: Store, peer: Seq<u8>, canonical: Option<Seq<char>>) -> bool {
    canonical matches Some(c) && store.peers(c) matches Some(allowed) && allowed.contains(peer)
}

/// The store after a sync of `path`, resolved to `canonical`, was
/// registered for `peer`: one more registration under the resolved path,
/// which is watched from now on; the permissions are as before.
pub open spec fn sync_registered(
    before: Store,
    after: Store,
    peer: Seq<u8>,
    path: Seq<char>,
    canonical: Seq<char>,
) -> bool {
    &&& add_sync_effect(before.sync_map(), after.sync_map(), canonical, registration(peer, path))
    &&& after.watch_keys() == before.watch_keys().insert(path_key(canonical))
    &&& after.permission_map() == before.permission_map()
}

/// `after` holds what `before` holds.
pub open spec fn store_unchanged(before: Store, after: Store) -> bool {
    &&& after.sync_map() == before.sync_map()
    &&& after.watch_keys() == before.watch_keys()
    &&& after.permission_map() == before.permission_map()
}

/// The view of a resolved path.
pub open spec fn text_of(s: Option<String>) -> Option<Seq<char>> {
    match s {
        Some(text) => Some(text@),
        None => None,
    }
}

/// An error of the store while a sync of the path that resolved to
/// `canonical` is decided: the path did resolve, and either the database
/// failed, or the permissions or the registrations of the resolved path
/// cannot be read.
pub open spec fn storage_error_of(store: Store, canonical: Option<Seq<char>>, e: StoreError) -> bool {
    &&& canonical matches Some(c)
    &&& e is DbError || (e is SerializationError && (store.peers(c) is None || store.configs(c)
        is None))
}

/// The permissions of the path that resolved to `canonical` cannot be
/// read.
pub open spec fn permissions_unreadable(store: Store, canonical: Option<Seq<char>>) -> bool {
    canonical matches Some(c) && store.peers(c) is None
}

/// Decides a request of `peer` to sync `path`, which the driver resolved
/// to `canonical` (`None` when it does not resolve). A peer that is
/// allowed on the resolved path gets the registration and the watch, and
/// no reply; any other request is answered with an error message and
/// leaves the store as it is. A path that does not resolve is always
/// answered; permissions that cannot be read never are.
pub fn authorize_sync(store: &mut Store, peer: PeerId, path: &str, canonical: Option<String>) -> (r:
    Result<Option<Message>, StoreError>)
    ensures
        !authorized(*old(store), peer@, text_of(canonical)) ==> store_unchanged(
            *old(store),
            *final(store),
        ),
        !authorized(*old(store), peer@, text_of(canonical)) && r is Ok ==> (r matches Ok(Some(m))
            && m@ == denied()),
        authorized(*old(store), peer@, text_of(canonical)) && r is Ok ==> r == Ok::<
            Option<Message>,
            StoreError,
        >(None) && sync_registered(*old(store), *final(store), peer@, path@, canonical->0@),
        r matches Err(e) ==> storage_error_of(*old(store), text_of(canonical), e),
        canonical is None ==> r is Ok,
        permissions_unreadable(*old(store), text_of(canonical)) ==> r is Err,
{
    let resolved = match canonical {
        Some(resolved) => resolved,
        None => {
            return Ok(Some(Message::Error { message: "Access denied or path not allowed".to_owned() }));
        },
    };
    let allowed = match store.get_permissions(resolved.as_str()) {
        Ok(allowed) => allowed,
        Err(e) => { return Err(e); },
    };
    if contains_peer(&allowed, &peer) {
        match store.add_sync(peer, path.to_owned(), resolved.as_str()) {
            Ok(()) => {},
            Err(e) => { return Err(e); },
        }
        match store.add_watch(resolved.as_str()) {
            Ok(()) => Ok(None),
            Err(e) => Err(e),
        }
    } else {
        Ok(Some(Message::Error { message: "Access denied or path not allowed".to_owned() }))
    }
}

/// Where a session stands.
#[derive(Debug, Clone, Copy, PartialEq, Eq, Structural)]
pub enum SessionState {
    /// The stream is not accepted yet.
    Init,
    /// The responder's handshake went out; the peer's is awaited.
    HandshakeSent,
    /// The peer's handshake came in; no request yet.
    HandshakeDone,
    /// Requests are being answered.
    Serving,
    /// The peer went away; the session ended in order.
    Closed,
    /// The session ended on an error.
    Error,
}

/// Why a session ended on an error.
#[derive(Debug)]
pub enum SessionError {
    /// A message or an answer of the driver that the state does not allow.
    ProtocolUnexpected,
    /// The stream failed before the handshake was done.
    Transport,
    /// The store failed while a sync was registered.
    Storage(StoreError),
}

/// What the machine waits for from the driver before it reads on.
#[derive(Debug, Clone, PartialEq, Eq)]
pub enum Pending {
    Nothing,
    /// The contents of the file that was asked for.
    FileFor(String),
    /// The contents of the file a delta was asked for, with the
    /// signature.
    DeltaFor(String, Vec<u8>),
    /// The entries under the path that was asked for.
    ListingFor(String),
    /// The resolved form of the path a sync was asked for.
    SyncFor(String),
}

/// What the driver does next.
#[derive(Debug)]
pub enum Step {
    /// Write the message, then read the next frame.
    Send(Message),
    /// Read the next frame.
    Receive,
    /// Read the regular file at the path and answer with `on_file`.
    ReadFile(String),
    /// Walk the path and answer with `on_listing`.
    ListTree(String),
    /// Resolve the path, symlinks included, and answer with `on_resolved`.
    Resolve(String),
    /// Start these pulls, each on a session of its own, then read the next
    /// frame.
    Pull(Vec<PullTask>),
    /// The session is over.
    Close,
    /// The session is over, on this error.
    Fail(SessionError),
}

/// The step is to send a message with this view.
pub open spec fn sends(step: Step, m: MessageView) -> bool {
    step matches Step::Send(x) && x@ == m
}

/// The step ends the session on a message or answer out of place.
pub open spec fn fails_unexpected(step: Step) -> bool {
    step matches Step::Fail(e) && e is ProtocolUnexpected
}

/// The step ends the session on a failure of the stream.
pub open spec fn fails_transport(step: Step) -> bool {
    step matches Step::Fail(e) && e is Transport
}

/// The step ends the session on an error of the store that came while a
/// sync of the path that resolved to `canonical` was decided.
pub open spec fn fails_storage_of(step: Step, store: Store, canonical: Option<Seq<char>>) -> bool {
    step matches Step::Fail(e) && e matches SessionError::Storage(inner) && storage_error_of(
        store,
        canonical,
        inner,
    )
}

/// How a sync request of `peer` for `path`, which resolved to
/// `canonical`, is answered. Unless the store fails, a peer that is
/// allowed on the resolved path is registered and gets no reply, and any
/// other request is denied. A failure of the store ends the session; it
/// comes only for a path that did resolve.
pub open spec fn sync_answered(
    before: Store,
    after: Store,
    peer: Seq<u8>,
    path: Seq<char>,
    canonical: Option<Seq<char>>,
    state: SessionState,
    step: Step,
) -> bool {
    if step is Fail {
        state == SessionState::Error && fails_storage_of(step, before, canonical)
    } else if authorized(before, peer, canonical) {
        state == SessionState::Serving && step is Receive && sync_registered(
            before,
            after,
            peer,
            path,
            canonical->0,
        )
    } else {
        state == SessionState::Serving && sends(step, denied()) && !permissions_unreadable(
            before,
            canonical,
        )
    }
}

/// The handshake that both sides send.
pub open spec fn handshake() -> MessageView {
    MessageView::Handshake { version: PROTOCOL_VERSION }
}

/// The error message that answers a sync request that is not allowed.
pub open spec fn denied() -> MessageView {
    MessageView::Error { message: denied_text() }
}

pub struct Session {
    state: SessionState,
    peer: PeerId,
    pending: Pending,
}

/// Whether requests are read in this state.
pub open spec fn reads_requests(state: SessionState, pending: Pending) -> bool {
    (state == SessionState::HandshakeDone || state == SessionState::Serving) && pending
        == Pending::Nothing
}

/// Whether the session is over in this state.
pub open spec fn is_over(state: SessionState) -> bool {
    state == SessionState::Closed || state == SessionState::Error
}

impl Session {
    pub closed spec fn state(&self) -> SessionState {
        self.state
    }

    pub closed spec fn peer(&self) -> PeerId {
        self.peer
    }

    pub closed spec fn pending(&self) -> Pending {
        self.pending
    }

    /// A session with the peer that the transport authenticated, before
    /// its stream is accepted.
    pub fn new(peer: PeerId) -> (s: Session)
        ensures
            s.state() == SessionState::Init,
            s.peer() == peer,
            s.pending() == Pending::Nothing,
    {
        Session { state: SessionState::Init, peer, pending: Pending::Nothing }
    }

    /// Where the session stands.
    pub fn current_state(&self) -> (r: SessionState)
        ensures
            r == self.state(),
    {
        self.state
    }

    /// Ends the session on an answer that its state does not allow.
    fn refuse(&mut self) -> (step: Step)
        ensures
            final(self).peer() == old(self).peer(),
            final(self).pending() == Pending::Nothing,
            is_over(old(self).state()) ==> final(self).state() == old(self).state() && step
                is Close,
            !is_over(old(self).state()) ==> final(self).state() == SessionState::Error
                && fails_unexpected(step),
    {
        self.pending = Pending::Nothing;
        match self.state {
            SessionState::Closed => Step::Close,
            SessionState::Error => Step::Close,
            _ => {
                self.state = SessionState::Error;
                Step::Fail(SessionError::ProtocolUnexpected)
            },
        }
    }

    /// The stream was accepted. The responder speaks first: the step is to
    /// send the handshake.
    pub fn accept(&mut self) -> (step: Step)
        ensures
            final(self).peer() == old(self).peer(),
            final(self).pending() == Pending::Nothing,
            old(self).state() == SessionState::Init ==> final(self).state()
                == SessionState::HandshakeSent && sends(step, handshake()),
            old(self).state() != SessionState::Init ==> step !is Send && if is_over(
                old(self).state(),
            ) {
                final(self).state() == old(self).state()
            } else {
                final(self).state() == SessionState::Error
            },
    {
        match self.state {
            SessionState::Init => {
                self.state = SessionState::HandshakeSent;
                self.pending = Pending::Nothing;
                Step::Send(Message::Handshake { version: PROTOCOL_VERSION })
            },
            _ => self.refuse(),
        }
    }

    /// Reading the next frame failed: the peer is gone. After the
    /// handshake that ends the session in order; before it, it is an
    /// error.
    pub fn on_disconnect(&mut self) -> (step: Step)
        ensures
            final(self).peer() == old(self).peer(),
            final(self).pending() == Pending::Nothing,
            (old(self).state() == SessionState::HandshakeDone || old(self).state()
                == SessionState::Serving) ==> final(self).state() == SessionState::Closed && step
                is Close,
            (old(self).state() == SessionState::Init || old(self).state()
                == SessionState::HandshakeSent) ==> final(self).state() == SessionState::Error
                && fails_transport(step),
            is_over(old(self).state()) ==> final(self).state() == old(self).state() && step
                is Close,
    {
        self.pending = Pending::Nothing;
        match self.state {
            SessionState::HandshakeDone => {
                self.state = SessionState::Closed;
                Step::Close
            },
            SessionState::Serving => {
                self.state = SessionState::Closed;
                Step::Close
            },
            SessionState::Init => {
                self.state = SessionState::Error;
                Step::Fail(SessionError::Transport)
            },
            SessionState::HandshakeSent => {
                self.state = SessionState::Error;
                Step::Fail(SessionError::Transport)
            },
            SessionState::Closed => Step::Close,
            SessionState::Error => Step::Close,
        }
    }
}


/// `tasks` are the pulls that an update of `path` from `peer` asks for by
/// the registrations in `m`, in some order of the local roots.
pub open spec fn pulls_owed(
    m: Map<Seq<u8>, Seq<u8>>,
    peer: Seq<u8>,
    path: Seq<char>,
    tasks: Seq<PullTaskView>,
) -> bool {
    exists|syncs: Seq<SyncEntry>| #[trigger]
        lists_syncs(syncs, m) && tasks == pulls_for(syncs_view(syncs), peer, path)
}

/// How a request is taken up: what the machine then waits for, and what
/// the driver is asked to do. A request for a file, a delta, a listing or
/// a sync asks the driver for what the answer needs; an update
/// notification asks for the pulls it maps to, or for nothing when the
/// store cannot be read; any other message is ignored.
pub open spec fn takes_up(
    msg: Message,
    peer: Seq<u8>,
    m: Map<Seq<u8>, Seq<u8>>,
    pending: Pending,
    step: Step,
) -> bool {
    match msg {
        Message::FileRequest { path } => pending == Pending::FileFor(path) && step
            == Step::ReadFile(path),
        Message::FileSignature { path, signature } => pending == Pending::DeltaFor(path, signature)
            && step == Step::ReadFile(path),
        Message::ListRequest { path } => pending == Pending::ListingFor(path) && step
            == Step::ListTree(path),
        Message::StartSync { path } => pending == Pending::SyncFor(path) && step == Step::Resolve(
            path,
        ),
        Message::FileUpdateNotification { path } => pending == Pending::Nothing && match step {
            Step::Pull(tasks) => pulls_owed(m, peer, path@, pulls_view(tasks@)),
            Step::Receive => true,
            _ => false,
        },
        _ => pending == Pending::Nothing && step is Receive,
    }
}

/// The view of what the driver read.
pub open spec fn bytes_of(contents: Option<Vec<u8>>) -> Option<Seq<u8>> {
    match contents {
        Some(data) => Some(data@),
        None => None,
    }
}

/// The view of what the driver listed.
pub open spec fn entries_of(listing: Option<Vec<FileMetadata>>) -> Option<
    Seq<crate::protocol::FileMetadataView>,
> {
    match listing {
        Some(files) => Some(files_view(files@)),
        None => None,
    }
}

impl Session {
    /// A frame came in. Before the handshake is done only a handshake is
    /// in order; after it the frame is a request and is taken up.
    pub fn on_frame(&mut self, store: &Store, msg: Message) -> (step: Step)
        ensures
            final(self).peer() == old(self).peer(),
            is_over(old(self).state()) ==> final(self).state() == old(self).state() && step
                is Close,
            old(self).state() == SessionState::Init ==> final(self).state() == SessionState::Error
                && fails_unexpected(step),
            old(self).state() == SessionState::HandshakeSent && msg is Handshake ==> final(self).state() == SessionState::HandshakeDone && final(self).pending() == Pending::Nothing
                && step is Receive,
            old(self).state() == SessionState::HandshakeSent && !(msg is Handshake) ==> final(self).state() == SessionState::Error && fails_unexpected(step),
            reads_requests(old(self).state(), old(self).pending()) ==> final(self).state()
                == SessionState::Serving && takes_up(
                msg,
                old(self).peer()@,
                store.sync_map(),
                final(self).pending(),
                step,
            ),
            (old(self).state() == SessionState::HandshakeDone || old(self).state()
                == SessionState::Serving) && old(self).pending() != Pending::Nothing ==> final(self).state() == SessionState::Error && fails_unexpected(step),
    {
        match self.state {
            SessionState::HandshakeSent => {
                match msg {
                    Message::Handshake { .. } => {
                        self.state = SessionState::HandshakeDone;
                        self.pending = Pending::Nothing;
                        Step::Receive
                    },
                    _ => self.refuse(),
                }
            },
            SessionState::HandshakeDone => self.serve(store, msg),
            SessionState::Serving => self.serve(store, msg),
            _ => self.refuse(),
        }
    }

    fn serve(&mut self, store: &Store, msg: Message) -> (step: Step)
        requires
            old(self).state() == SessionState::HandshakeDone || old(self).state()
                == SessionState::Serving,
        ensures
            final(self).peer() == old(self).peer(),
            old(self).pending() == Pending::Nothing ==> final(self).state()
                == SessionState::Serving && takes_up(
                msg,
                old(self).peer()@,
                store.sync_map(),
                final(self).pending(),
                step,
            ),
            old(self).pending() != Pending::Nothing ==> final(self).state() == SessionState::Error
                && fails_unexpected(step),
    {
        match &self.pending {
            Pending::Nothing => {},
            _ => { return self.refuse(); },
        }
        self.state = SessionState::Serving;
        match msg {
            Message::FileRequest { path } => {
                let asked = path.clone();
                self.pending = Pending::FileFor(path);
                Step::ReadFile(asked)
            },
            Message::FileSignature { path, signature } => {
                let asked = path.clone();
                self.pending = Pending::DeltaFor(path, signature);
                Step::ReadFile(asked)
            },
            Message::ListRequest { path } => {
                let asked = path.clone();
                self.pending = Pending::ListingFor(path);
                Step::ListTree(asked)
            },
            Message::StartSync { path } => {
                let asked = path.clone();
                self.pending = Pending::SyncFor(path);
                Step::Resolve(asked)
            },
            Message::FileUpdateNotification { path } => {
                match store.list_syncs() {
                    Ok(syncs) => {
                        let tasks = pull_tasks(&syncs, &self.peer, path.as_str());
                        proof {
                            assert(lists_syncs(syncs@, store.sync_map()));
                        }
                        Step::Pull(tasks)
                    },
                    Err(_) => Step::Receive,
                }
            },
            _ => Step::Receive,
        }
    }

    /// The driver read the file it was asked to read: `contents` is what
    /// the regular file at the path holds, or `None` when there is none.
    /// The step is to send the answer.
    pub fn on_file(&mut self, contents: Option<Vec<u8>>) -> (step: Step)
        ensures
            final(self).peer() == old(self).peer(),
            final(self).pending() == Pending::Nothing,
            old(self).state() == SessionState::Serving ==> match old(self).pending() {
                Pending::FileFor(path) => final(self).state() == SessionState::Serving && sends(
                    step,
                    file_answer(path@, bytes_of(contents)),
                ),
                Pending::DeltaFor(path, signature) => final(self).state() == SessionState::Serving
                    && sends(step, delta_answer(path@, signature@, bytes_of(contents))),
                _ => final(self).state() == SessionState::Error && fails_unexpected(step),
            },
            old(self).state() != SessionState::Serving ==> step !is Send && (is_over(
                old(self).state(),
            ) || final(self).state() == SessionState::Error),
    {
        match self.state {
            SessionState::Serving => {},
            _ => { return self.refuse(); },
        }
        let mut waiting = Pending::Nothing;
        std::mem::swap(&mut self.pending, &mut waiting);
        match waiting {
            Pending::FileFor(path) => Step::Send(file_reply(path, contents)),
            Pending::DeltaFor(path, signature) => Step::Send(
                delta_reply(path, signature.as_slice(), contents),
            ),
            _ => self.refuse(),
        }
    }

    /// The driver walked the path it was asked to walk: `listing` is what
    /// it found, or `None` when the path is not there. The step is to send
    /// the answer.
    pub fn on_listing(&mut self, listing: Option<Vec<FileMetadata>>) -> (step: Step)
        ensures
            final(self).peer() == old(self).peer(),
            final(self).pending() == Pending::Nothing,
            old(self).state() == SessionState::Serving ==> match old(self).pending() {
                Pending::ListingFor(path) => final(self).state() == SessionState::Serving && sends(
                    step,
                    listing_answer(path@, entries_of(listing)),
                ),
                _ => final(self).state() == SessionState::Error && fails_unexpected(step),
            },
            old(self).state() != SessionState::Serving ==> step !is Send && (is_over(
                old(self).state(),
            ) || final(self).state() == SessionState::Error),
    {
        match self.state {
            SessionState::Serving => {},
            _ => { return self.refuse(); },
        }
        let mut waiting = Pending::Nothing;
        std::mem::swap(&mut self.pending, &mut waiting);
        match waiting {
            Pending::ListingFor(path) => Step::Send(listing_reply(path, listing)),
            _ => self.refuse(),
        }
    }

    /// The driver resolved the path a sync was asked for: `canonical` is
    /// its resolved form, or `None` when it does not resolve. A peer that
    /// is allowed on the resolved path is registered and gets no reply;
    /// any other request is answered with an error and changes nothing in
    /// the store. A path that does not resolve is always denied. A
    /// failure of the store ends the session.
    pub fn on_resolved(&mut self, store: &mut Store, canonical: Option<String>) -> (step: Step)
        ensures
            final(self).peer() == old(self).peer(),
            final(self).pending() == Pending::Nothing,
            old(self).state() == SessionState::Serving && old(self).pending() is SyncFor
                ==> sync_answered(
                *old(store),
                *final(store),
                old(self).peer()@,
                old(self).pending()->SyncFor_0@,
                text_of(canonical),
                final(self).state(),
                step,
            ),
            old(self).state() == SessionState::Serving && old(self).pending() is SyncFor
                && canonical is None ==> final(self).state() == SessionState::Serving && sends(
                step,
                denied(),
            ),
            old(self).state() == SessionState::Serving && old(self).pending() is SyncFor
                && permissions_unreadable(*old(store), text_of(canonical)) ==> fails_storage_of(
                step,
                *old(store),
                text_of(canonical),
            ),
            old(self).state() == SessionState::Serving && old(self).pending() is SyncFor
                && !authorized(*old(store), old(self).peer()@, text_of(canonical))
                ==> store_unchanged(*old(store), *final(store)),
            !(old(self).state() == SessionState::Serving && old(self).pending() is SyncFor)
                ==> store_unchanged(*old(store), *final(store)) && step !is Send && step
                !is Receive && (is_over(old(self).state()) || final(self).state()
                == SessionState::Error),
    {
        match self.state {
            SessionState::Serving => {},
            _ => { return self.refuse(); },
        }
        let mut waiting = Pending::Nothing;
        std::mem::swap(&mut self.pending, &mut waiting);
        match waiting {
            Pending::SyncFor(path) => {
                match authorize_sync(store, self.peer, path.as_str(), canonical) {
                    Ok(Some(reply)) => Step::Send(reply),
                    Ok(None) => Step::Receive,
                    Err(e) => {
                        self.state = SessionState::Error;
                        Step::Fail(SessionError::Storage(e))
                    },
                }
            },
            _ => self.refuse(),
        }
    }
}

} // verus!
