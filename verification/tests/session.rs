use std::collections::BTreeMap;

use syncr::peer::PeerId;
use syncr::protocol::{read_message, write_message, FileMetadata, Message};
use syncr::pull::{
    notify_peer, record_sync, register_reverse_sync, PullError, PullSession, PullState, PullStep,
};
use syncr::records::SyncConfig;
use syncr::session::{
    authorize_sync, delta_reply, file_reply, listing_reply, pull_tasks, PullTask, Session,
    SessionError, SessionState, Step,
};
use syncr::store::Store;
use syncr::sync_manager::{SyncManager, Turn};
use syncr::sync_utils::{apply_delta, calculate_signature, DeltaError};
use syncr::watcher::{EventKind, FileWatcher};

type Files = BTreeMap<String, Vec<u8>>;

fn peer(n: u8) -> PeerId {
    PeerId { bytes: [n; 32] }
}

fn error(text: &str) -> Message {
    Message::Error { message: text.to_string() }
}

/// Sends a message through a frame, as the stream would carry it.
fn over_the_wire(msg: &Message) -> Message {
    let frame = write_message(msg).unwrap();
    let (got, used) = read_message(&frame).unwrap();
    assert_eq!(used, frame.len());
    got
}

fn listing(files: &Files, path: &str) -> Option<Vec<FileMetadata>> {
    let under = format!("{}/", path);
    let found: Vec<FileMetadata> = files
        .iter()
        .filter(|(name, _)| name.as_str() == path || name.starts_with(&under))
        .map(|(name, data)| FileMetadata {
            path: name.clone(),
            len: data.len() as u64,
            modified: 0,
            is_dir: false,
        })
        .collect();
    if found.is_empty() {
        None
    } else {
        Some(found)
    }
}

/// Plays the responder's driver on in-memory files until it wants the next frame.
fn respond(session: &mut Session, store: &mut Store, files: &Files, mut step: Step) -> Vec<Message> {
    let mut sent = Vec::new();
    loop {
        step = match step {
            Step::Send(msg) => {
                sent.push(over_the_wire(&msg));
                return sent;
            }
            Step::Receive | Step::Pull(_) | Step::Close | Step::Fail(_) => return sent,
            Step::ReadFile(path) => session.on_file(files.get(&path).cloned()),
            Step::ListTree(path) => session.on_listing(listing(files, &path)),
            Step::Resolve(path) => {
                let canonical = if path.starts_with('/') { Some(path) } else { None };
                session.on_resolved(store, canonical)
            }
        };
    }
}

/// Runs a whole pull of `remote` into `local` between two in-memory sides and
/// gives every FileDelta payload that crossed the wire.
fn run_pull(server: &Files, client: &mut Files, remote: &str, local: &str) -> Result<Vec<usize>, PullError> {
    let mut store = Store::temporary().unwrap();
    let mut session = Session::new(peer(1));
    let mut pull = PullSession::new(remote.to_string(), local.to_string());
    let mut deltas = Vec::new();

    let first = session.accept();
    let mut inbox = respond(&mut session, &mut store, server, first);
    assert_eq!(inbox, vec![Message::Handshake { version: 1 }]);
    loop {
        assert_eq!(inbox.len(), 1, "the responder answers every request once");
        let frame = inbox.remove(0);
        if let Message::FileDelta { delta, .. } = &frame {
            deltas.push(delta.len());
        }
        let mut step = pull.on_frame(frame);
        loop {
            step = match step {
                PullStep::Send(messages) => {
                    for msg in messages {
                        let got = over_the_wire(&msg);
                        let next = session.on_frame(&store, got);
                        inbox.extend(respond(&mut session, &mut store, server, next));
                    }
                    break;
                }
                PullStep::ReadLocal(path) => pull.on_local(client.get(&path).cloned()),
                PullStep::CreateDir(_) => pull.advance(),
                PullStep::Write { path, data } => {
                    client.insert(path, data);
                    pull.advance()
                }
                PullStep::Done => {
                    assert_eq!(pull.current_state(), PullState::Done);
                    assert!(matches!(session.on_disconnect(), Step::Close));
                    assert_eq!(session.current_state(), SessionState::Closed);
                    return Ok(deltas);
                }
                PullStep::Fail(e) => {
                    assert_eq!(pull.current_state(), PullState::Failed);
                    return Err(e);
                }
            };
        }
    }
}

#[test]
fn initial_copy_of_a_file_that_exists_on_the_server() {
    let mut server = Files::new();
    server.insert("/data/a.txt".to_string(), b"hello\n".to_vec());
    let mut client = Files::new();
    let deltas = run_pull(&server, &mut client, "/data/a.txt", "/local/a.txt").unwrap();
    assert_eq!(client.get("/local/a.txt"), Some(&b"hello\n".to_vec()));
    assert_eq!(client.len(), 1);
    assert!(deltas.is_empty());
}

#[test]
fn delta_update_of_a_file_that_exists_on_both_sides() {
    let mut server = Files::new();
    server.insert("a.txt".to_string(), b"hello world\n".to_vec());
    let mut client = Files::new();
    client.insert("a.txt".to_string(), b"hello\n".to_vec());
    let deltas = run_pull(&server, &mut client, "a.txt", "a.txt").unwrap();
    assert_eq!(client.get("a.txt"), Some(&b"hello world\n".to_vec()));
    assert_eq!(deltas.len(), 1);
}

#[test]
fn delta_update_transfers_less_than_the_new_file() {
    let old: Vec<u8> = (0..50_000u32).map(|i| (i.wrapping_mul(2_654_435_761) >> 24) as u8).collect();
    let mut new = old.clone();
    new.extend_from_slice(b"hello world\n");
    let mut server = Files::new();
    server.insert("/data/big".to_string(), new.clone());
    let mut client = Files::new();
    client.insert("/local/big".to_string(), old);
    let deltas = run_pull(&server, &mut client, "/data/big", "/local/big").unwrap();
    assert_eq!(client.get("/local/big"), Some(&new));
    assert_eq!(deltas.len(), 1);
    assert!(deltas[0] < new.len());
}

#[test]
fn a_directory_pull_maps_every_entry_under_the_local_path() {
    let mut server = Files::new();
    server.insert("/r/top.txt".to_string(), b"top".to_vec());
    server.insert("/r/sub/x".to_string(), b"x".to_vec());
    server.insert("/r2/other".to_string(), b"no".to_vec());
    let mut client = Files::new();
    client.insert("/l/sub/x".to_string(), b"old x".to_vec());
    run_pull(&server, &mut client, "/r", "/l").unwrap();
    assert_eq!(client.get("/l/top.txt"), Some(&b"top".to_vec()));
    assert_eq!(client.get("/l/sub/x"), Some(&b"x".to_vec()));
    assert_eq!(client.len(), 2);
}

#[test]
fn a_pull_of_a_missing_path_fails_and_writes_nothing() {
    let server = Files::new();
    let mut client = Files::new();
    client.insert("/local/a.txt".to_string(), b"keep".to_vec());
    let err = run_pull(&server, &mut client, "/data/a.txt", "/local/a.txt").unwrap_err();
    assert_eq!(err, PullError::Remote("File not found: /data/a.txt".to_string()));
    assert_eq!(client.get("/local/a.txt"), Some(&b"keep".to_vec()));
}

#[test]
fn directories_of_a_listing_are_created() {
    let mut pull = PullSession::new("/r".to_string(), "/l".to_string());
    assert!(matches!(pull.on_frame(Message::Handshake { version: 1 }), PullStep::Send(_)));
    let files = vec![
        FileMetadata { path: "/r".to_string(), len: 0, modified: 0, is_dir: true },
        FileMetadata { path: "/r/sub".to_string(), len: 0, modified: 0, is_dir: true },
        FileMetadata { path: "/r/sub/x".to_string(), len: 1, modified: 0, is_dir: false },
    ];
    assert_eq!(pull.on_frame(Message::ListResponse { files }), PullStep::CreateDir("/l".to_string()));
    assert_eq!(pull.advance(), PullStep::CreateDir("/l/sub".to_string()));
    // The directory above a file is created before the file is touched.
    assert_eq!(pull.advance(), PullStep::CreateDir("/l/sub".to_string()));
    assert_eq!(pull.current_state(), PullState::NeedParent);
    assert_eq!(pull.advance(), PullStep::ReadLocal("/l/sub/x".to_string()));
    assert_eq!(
        pull.on_local(None),
        PullStep::Send(vec![Message::FileRequest { path: "/r/sub/x".to_string() }])
    );
    let data = Message::FileData { path: "/r/sub/x".to_string(), data: vec![7], offset: 0, is_last: true };
    assert_eq!(pull.on_frame(data), PullStep::Write { path: "/l/sub/x".to_string(), data: vec![7] });
    assert_eq!(pull.advance(), PullStep::Done);
    assert_eq!(pull.advance(), PullStep::Done);
}

#[test]
fn the_initiator_reads_the_handshake_before_it_sends() {
    let mut pull = PullSession::new("/r".to_string(), "/l".to_string());
    assert_eq!(pull.current_state(), PullState::AwaitHandshake);
    assert_eq!(
        pull.on_frame(Message::Handshake { version: 1 }),
        PullStep::Send(vec![
            Message::Handshake { version: 1 },
            Message::ListRequest { path: "/r".to_string() },
        ])
    );
    let mut other = PullSession::new("/r".to_string(), "/l".to_string());
    assert_eq!(
        other.on_frame(Message::ListResponse { files: vec![] }),
        PullStep::Fail(PullError::ProtocolUnexpected)
    );
    assert_eq!(other.current_state(), PullState::Failed);
    assert_eq!(other.advance(), PullStep::Fail(PullError::ProtocolUnexpected));
}

#[test]
fn a_delta_that_does_not_apply_ends_the_pull() {
    let mut pull = PullSession::new("/r/a".to_string(), "/l/a".to_string());
    pull.on_frame(Message::Handshake { version: 1 });
    let files = vec![FileMetadata { path: "/r/a".to_string(), len: 1, modified: 0, is_dir: false }];
    assert_eq!(pull.on_frame(Message::ListResponse { files }), PullStep::CreateDir("/l".to_string()));
    assert_eq!(pull.advance(), PullStep::ReadLocal("/l/a".to_string()));
    let local = b"hello\n".to_vec();
    let expected = calculate_signature(&local).unwrap();
    assert_eq!(
        pull.on_local(Some(local)),
        PullStep::Send(vec![Message::FileSignature { path: "/r/a".to_string(), signature: expected }])
    );
    let bad = Message::FileDelta { path: "/r/a".to_string(), delta: vec![1, 2, 3] };
    assert_eq!(pull.on_frame(bad), PullStep::Fail(PullError::Delta(DeltaError::DeltaMalformed)));
}

#[test]
fn one_shot_sessions_send_the_handshake_and_their_request() {
    let hs = Message::Handshake { version: 1 };
    assert_eq!(
        notify_peer(&hs, "/data/a.txt".to_string()),
        Some(vec![hs.clone(), Message::FileUpdateNotification { path: "/data/a.txt".to_string() }])
    );
    assert_eq!(
        register_reverse_sync(&hs, "/data/a.txt".to_string()),
        Some(vec![hs.clone(), Message::StartSync { path: "/data/a.txt".to_string() }])
    );
    assert_eq!(notify_peer(&error("no"), "/data/a.txt".to_string()), None);
    assert_eq!(register_reverse_sync(&Message::ListResponse { files: vec![] }, "/x".to_string()), None);
}

#[test]
fn the_responder_speaks_first() {
    let mut session = Session::new(peer(1));
    assert_eq!(session.current_state(), SessionState::Init);
    match session.accept() {
        Step::Send(msg) => assert_eq!(msg, Message::Handshake { version: 1 }),
        other => panic!("unexpected step: {:?}", other),
    }
    assert_eq!(session.current_state(), SessionState::HandshakeSent);
    let store = Store::temporary().unwrap();
    assert!(matches!(session.on_frame(&store, Message::Handshake { version: 1 }), Step::Receive));
    assert_eq!(session.current_state(), SessionState::HandshakeDone);
}

#[test]
fn nothing_is_answered_before_the_stream_is_accepted() {
    let store = Store::temporary().unwrap();
    let mut session = Session::new(peer(1));
    let step = session.on_frame(&store, Message::FileRequest { path: "/a".to_string() });
    assert!(matches!(step, Step::Fail(SessionError::ProtocolUnexpected)));
    assert_eq!(session.current_state(), SessionState::Error);
    assert!(matches!(session.accept(), Step::Close));
}

#[test]
fn anything_but_a_handshake_is_fatal_during_the_handshake() {
    let store = Store::temporary().unwrap();
    let mut session = Session::new(peer(1));
    session.accept();
    let step = session.on_frame(&store, Message::FileRequest { path: "/a".to_string() });
    assert!(matches!(step, Step::Fail(SessionError::ProtocolUnexpected)));
    assert_eq!(session.current_state(), SessionState::Error);
    assert!(matches!(session.on_frame(&store, Message::Handshake { version: 1 }), Step::Close));

    let mut gone = Session::new(peer(1));
    gone.accept();
    assert!(matches!(gone.on_disconnect(), Step::Fail(SessionError::Transport)));
}

fn serving(p: u8) -> (Session, Store) {
    let store = Store::temporary().unwrap();
    let mut session = Session::new(peer(p));
    session.accept();
    session.on_frame(&store, Message::Handshake { version: 1 });
    (session, store)
}

#[test]
fn requests_are_dispatched_by_their_kind() {
    let (mut session, store) = serving(1);
    let step = session.on_frame(&store, Message::FileRequest { path: "/a".to_string() });
    assert!(matches!(step, Step::ReadFile(ref p) if p == "/a"));
    match session.on_file(Some(b"data".to_vec())) {
        Step::Send(msg) => assert_eq!(
            msg,
            Message::FileData { path: "/a".to_string(), data: b"data".to_vec(), offset: 0, is_last: true }
        ),
        other => panic!("unexpected step: {:?}", other),
    }
    let step = session.on_frame(&store, Message::FileRequest { path: "/missing".to_string() });
    assert!(matches!(step, Step::ReadFile(_)));
    match session.on_file(None) {
        Step::Send(msg) => assert_eq!(msg, error("File not found: /missing")),
        other => panic!("unexpected step: {:?}", other),
    }
    let step = session.on_frame(&store, Message::ListRequest { path: "/d".to_string() });
    assert!(matches!(step, Step::ListTree(ref p) if p == "/d"));
    match session.on_listing(Some(vec![])) {
        Step::Send(msg) => assert_eq!(msg, Message::ListResponse { files: vec![] }),
        other => panic!("unexpected step: {:?}", other),
    }
    // Messages that are no requests are ignored.
    for msg in [
        Message::Handshake { version: 1 },
        error("ignored"),
        Message::ListResponse { files: vec![] },
        Message::FileDelta { path: "/a".to_string(), delta: vec![] },
    ] {
        assert!(matches!(session.on_frame(&store, msg), Step::Receive));
        assert_eq!(session.current_state(), SessionState::Serving);
    }
    assert!(matches!(session.on_disconnect(), Step::Close));
    assert_eq!(session.current_state(), SessionState::Closed);
}

#[test]
fn a_signature_is_answered_with_the_delta() {
    let old = b"hello\n".to_vec();
    let new = b"hello world\n".to_vec();
    let signature = calculate_signature(&old).unwrap();
    let (mut session, store) = serving(1);
    let step = session.on_frame(
        &store,
        Message::FileSignature { path: "a.txt".to_string(), signature: signature.clone() },
    );
    assert!(matches!(step, Step::ReadFile(ref p) if p == "a.txt"));
    match session.on_file(Some(new.clone())) {
        Step::Send(Message::FileDelta { path, delta }) => {
            assert_eq!(path, "a.txt");
            assert_eq!(apply_delta(&old, &delta).unwrap(), new);
        }
        other => panic!("unexpected step: {:?}", other),
    }
    assert_eq!(
        delta_reply("a.txt".to_string(), &[1, 2, 3], Some(new.clone())),
        error("Delta calculation failed: invalid or unsupported signature")
    );
    assert_eq!(delta_reply("a.txt".to_string(), &signature, None), error("File not found: a.txt"));
    assert_eq!(file_reply("a.txt".to_string(), None), error("File not found: a.txt"));
    assert_eq!(listing_reply("/d".to_string(), None), error("File not found: /d"));
}

#[test]
fn an_answer_that_was_not_asked_for_ends_the_session() {
    let (mut session, _store) = serving(1);
    assert!(matches!(session.on_file(Some(vec![])), Step::Fail(SessionError::ProtocolUnexpected)));
    assert_eq!(session.current_state(), SessionState::Error);
    let (mut session, store) = serving(1);
    session.on_frame(&store, Message::FileRequest { path: "/a".to_string() });
    assert!(matches!(session.on_listing(None), Step::Fail(SessionError::ProtocolUnexpected)));
}

#[test]
fn unauthorized_sync_is_denied_and_leaves_the_store_alone() {
    let (mut session, mut store) = serving(7);
    store.allow_peer("/data/a.txt", peer(8)).unwrap();
    store.allow_peer("/data", peer(7)).unwrap();
    let step = session.on_frame(&store, Message::StartSync { path: "/data/a.txt".to_string() });
    assert!(matches!(step, Step::Resolve(ref p) if p == "/data/a.txt"));
    match session.on_resolved(&mut store, Some("/data/a.txt".to_string())) {
        Step::Send(msg) => assert_eq!(msg, error("Access denied or path not allowed")),
        other => panic!("unexpected step: {:?}", other),
    }
    assert_eq!(session.current_state(), SessionState::Serving);
    assert_eq!(store.list_syncs().unwrap(), vec![]);
    assert_eq!(store.list_watches().unwrap(), Vec::<String>::new());
}

#[test]
fn a_path_that_does_not_resolve_is_denied() {
    let mut store = Store::temporary().unwrap();
    store.allow_peer("a.txt", peer(7)).unwrap();
    let reply = authorize_sync(&mut store, peer(7), "a.txt", None).unwrap();
    assert_eq!(reply, Some(error("Access denied or path not allowed")));
    assert_eq!(store.list_syncs().unwrap(), vec![]);
}

#[test]
fn authorized_sync_registers_under_the_resolved_path() {
    let (mut session, mut store) = serving(7);
    store.allow_peer("/srv/data/a.txt", peer(7)).unwrap();
    session.on_frame(&store, Message::StartSync { path: "data/a.txt".to_string() });
    let step = session.on_resolved(&mut store, Some("/srv/data/a.txt".to_string()));
    assert!(matches!(step, Step::Receive));
    assert_eq!(
        store.list_syncs().unwrap(),
        vec![(
            "/srv/data/a.txt".to_string(),
            vec![SyncConfig { peer: peer(7), remote_path: "data/a.txt".to_string() }]
        )]
    );
    assert_eq!(store.list_watches().unwrap(), vec!["/srv/data/a.txt".to_string()]);
    assert_eq!(store.get_permissions("/srv/data/a.txt").unwrap(), vec![peer(7)]);
}

#[test]
fn a_notification_maps_to_pulls_by_exact_and_prefix_match() {
    let syncs = vec![
        (
            "/l".to_string(),
            vec![
                SyncConfig { peer: peer(1), remote_path: "/r".to_string() },
                SyncConfig { peer: peer(2), remote_path: "/r".to_string() },
                SyncConfig { peer: peer(1), remote_path: "/r/sub/x".to_string() },
                SyncConfig { peer: peer(1), remote_path: "/r/su".to_string() },
            ],
        ),
        ("/m".to_string(), vec![SyncConfig { peer: peer(1), remote_path: "/r/sub".to_string() }]),
    ];
    let task = |local: &str| PullTask { remote_path: "/r/sub/x".to_string(), local_path: local.to_string() };
    assert_eq!(pull_tasks(&syncs, &peer(1), "/r/sub/x"), vec![task("/l/sub/x"), task("/l"), task("/m/x")]);
    assert_eq!(pull_tasks(&syncs, &peer(2), "/r/sub/x"), vec![task("/l/sub/x")]);
    assert_eq!(pull_tasks(&syncs, &peer(3), "/r/sub/x"), vec![]);
    assert_eq!(pull_tasks(&syncs, &peer(1), "/elsewhere"), vec![]);
}

#[test]
fn directory_prefix_mapping() {
    let syncs = vec![("/l".to_string(), vec![SyncConfig { peer: peer(1), remote_path: "/r".to_string() }])];
    assert_eq!(
        pull_tasks(&syncs, &peer(1), "/r/sub/x"),
        vec![PullTask { remote_path: "/r/sub/x".to_string(), local_path: "/l/sub/x".to_string() }]
    );
    // The pull then writes the file under the mapped path.
    let mut server = Files::new();
    server.insert("/r/sub/x".to_string(), b"x".to_vec());
    let mut client = Files::new();
    run_pull(&server, &mut client, "/r/sub/x", "/l/sub/x").unwrap();
    assert_eq!(client.get("/l/sub/x"), Some(&b"x".to_vec()));
}

#[test]
fn missing_directories_are_created_before_the_write() {
    let mut pull = PullSession::new("/r/sub/x".to_string(), "/l/sub/x".to_string());
    pull.on_frame(Message::Handshake { version: 1 });
    let files = vec![FileMetadata { path: "/r/sub/x".to_string(), len: 1, modified: 0, is_dir: false }];
    let mut steps = vec![pull.on_frame(Message::ListResponse { files })];
    steps.push(pull.advance());
    steps.push(pull.on_local(None));
    let data = Message::FileData { path: "/r/sub/x".to_string(), data: vec![7], offset: 0, is_last: true };
    steps.push(pull.on_frame(data));
    steps.push(pull.advance());
    assert_eq!(
        steps,
        vec![
            PullStep::CreateDir("/l/sub".to_string()),
            PullStep::ReadLocal("/l/sub/x".to_string()),
            PullStep::Send(vec![Message::FileRequest { path: "/r/sub/x".to_string() }]),
            PullStep::Write { path: "/l/sub/x".to_string(), data: vec![7] },
            PullStep::Done,
        ]
    );
    // A target of one component has no directory above it.
    let mut bare = PullSession::new("x".to_string(), "x".to_string());
    bare.on_frame(Message::Handshake { version: 1 });
    let files = vec![FileMetadata { path: "x".to_string(), len: 1, modified: 0, is_dir: false }];
    assert_eq!(bare.on_frame(Message::ListResponse { files }), PullStep::ReadLocal("x".to_string()));
}

#[test]
fn a_sync_request_for_a_path_that_does_not_resolve_is_always_denied() {
    let (mut session, mut store) = serving(7);
    store.allow_peer("a.txt", peer(7)).unwrap();
    session.on_frame(&store, Message::StartSync { path: "a.txt".to_string() });
    match session.on_resolved(&mut store, None) {
        Step::Send(msg) => assert_eq!(msg, error("Access denied or path not allowed")),
        other => panic!("unexpected step: {:?}", other),
    }
    assert_eq!(session.current_state(), SessionState::Serving);
    assert_eq!(store.list_syncs().unwrap(), vec![]);
    assert_eq!(store.list_watches().unwrap(), Vec::<String>::new());
}

#[test]
fn reverse_sync_propagation() {
    let a = peer(0xa);
    let b = peer(0xb);
    let mut files_a = Files::new();
    let mut files_b = Files::new();
    files_b.insert("/data/a.txt".to_string(), b"hello\n".to_vec());
    let mut store_a = Store::temporary().unwrap();
    let mut store_b = Store::temporary().unwrap();
    store_b.allow_peer("/data/a.txt", a).unwrap();

    // A: `sync B /data/a.txt /local/a.txt`.
    run_pull(&files_b, &mut files_a, "/data/a.txt", "/local/a.txt").unwrap();
    record_sync(&mut store_a, b, "/data/a.txt".to_string(), "/local/a.txt").unwrap();
    let mut on_b = Session::new(a);
    let first = match on_b.accept() {
        Step::Send(msg) => over_the_wire(&msg),
        other => panic!("unexpected step: {:?}", other),
    };
    for msg in register_reverse_sync(&first, "/data/a.txt".to_string()).unwrap() {
        let step = on_b.on_frame(&store_b, over_the_wire(&msg));
        assert!(respond(&mut on_b, &mut store_b, &files_b, step).is_empty());
    }
    assert!(matches!(on_b.on_disconnect(), Step::Close));

    let config = |p: PeerId| vec![SyncConfig { peer: p, remote_path: "/data/a.txt".to_string() }];
    assert_eq!(store_a.list_syncs().unwrap(), vec![("/local/a.txt".to_string(), config(b))]);
    assert_eq!(store_a.list_watches().unwrap(), vec!["/local/a.txt".to_string()]);
    assert_eq!(store_b.list_syncs().unwrap(), vec![("/data/a.txt".to_string(), config(a))]);
    assert_eq!(store_b.list_watches().unwrap(), vec!["/data/a.txt".to_string()]);

    // B writes to the file; its manager owes A a notification.
    files_b.insert("/data/a.txt".to_string(), b"hello world\n".to_vec());
    let mut manager_b = SyncManager::new(store_b, FileWatcher::new());
    for path in manager_b.watched_paths().unwrap() {
        assert!(manager_b.arm(&path, true));
    }
    assert!(manager_b.notify(EventKind::Modify, &vec!["/data/a.txt".to_string()]));
    let notes = match manager_b.run() {
        Turn::Notify(notes) => notes,
        other => panic!("unexpected turn: {:?}", other),
    };
    assert_eq!(notes.len(), 1);
    assert_eq!(notes[0].peer, a);

    // A's responder takes the notification from B and pulls.
    let mut on_a = Session::new(b);
    let first = match on_a.accept() {
        Step::Send(msg) => over_the_wire(&msg),
        other => panic!("unexpected step: {:?}", other),
    };
    let frames = notify_peer(&first, notes[0].remote_path.clone()).unwrap();
    assert!(matches!(on_a.on_frame(&store_a, over_the_wire(&frames[0])), Step::Receive));
    let tasks = match on_a.on_frame(&store_a, over_the_wire(&frames[1])) {
        Step::Pull(tasks) => tasks,
        other => panic!("unexpected step: {:?}", other),
    };
    assert_eq!(
        tasks,
        vec![PullTask { remote_path: "/data/a.txt".to_string(), local_path: "/local/a.txt".to_string() }]
    );
    let deltas = run_pull(&files_b, &mut files_a, &tasks[0].remote_path, &tasks[0].local_path).unwrap();
    assert_eq!(deltas.len(), 1);
    assert_eq!(files_a.get("/local/a.txt"), files_b.get("/data/a.txt"));
}
