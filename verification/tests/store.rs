use syncr::peer::PeerId;
use syncr::records::{
    allow_in, contains_peer, decode_configs, decode_peers, disallow_in, encode_configs,
    encode_peers,
};
use syncr::store::{entry_paths, entry_syncs, Store, StoreError, SyncConfig};

/// Opens the store at `dir`, waiting while an earlier handle still lets go
/// of the directory's lock.
fn reopen(dir: &str) -> Store {
    let start = std::time::Instant::now();
    loop {
        match Store::new(dir) {
            Ok(store) => return store,
            Err(e) if start.elapsed().as_secs() >= 10 => panic!("cannot open {}: {:?}", dir, e),
            Err(_) => std::hint::spin_loop(),
        }
    }
}

/// Opens the database at `dir` directly, waiting for its lock likewise.
fn reopen_raw(dir: &str) -> sled::Db {
    let start = std::time::Instant::now();
    loop {
        match sled::open(dir) {
            Ok(db) => return db,
            Err(e) if start.elapsed().as_secs() >= 10 => panic!("cannot open {}: {:?}", dir, e),
            Err(_) => std::hint::spin_loop(),
        }
    }
}

fn peer(n: u8) -> PeerId {
    let mut bytes = [n; 32];
    bytes[0] = 0xa0;
    bytes[31] = n.wrapping_mul(3);
    PeerId { bytes }
}

#[test]
fn a_fresh_store_is_empty() {
    let store = Store::temporary().unwrap();
    assert_eq!(store.list_watches().unwrap(), Vec::<String>::new());
    assert_eq!(store.list_syncs().unwrap(), vec![]);
    assert_eq!(store.get_permissions("/data/a.txt").unwrap(), vec![]);
}

#[test]
fn remove_watch_is_true_exactly_after_an_unmatched_add() {
    let mut store = Store::temporary().unwrap();
    assert_eq!(store.remove_watch("/data/a.txt").unwrap(), false);
    store.add_watch("/data/a.txt").unwrap();
    store.add_watch("/data/b.txt").unwrap();
    assert_eq!(store.remove_watch("/data/a.txt").unwrap(), true);
    assert_eq!(store.remove_watch("/data/a.txt").unwrap(), false);
    assert_eq!(store.remove_watch("/data/b.txt").unwrap(), true);
    store.add_watch("/data/a.txt").unwrap();
    store.add_watch("/data/a.txt").unwrap();
    assert_eq!(store.remove_watch("/data/a.txt").unwrap(), true);
    assert_eq!(store.remove_watch("/data/a.txt").unwrap(), false);
}

#[test]
fn list_watches_gives_every_watched_path_once() {
    let mut store = Store::temporary().unwrap();
    store.add_watch("/data/b").unwrap();
    store.add_watch("/data/a").unwrap();
    store.add_watch("/data/b").unwrap();
    store.add_watch("/data/\u{00e9}").unwrap();
    let mut paths = store.list_watches().unwrap();
    paths.sort();
    assert_eq!(paths, vec!["/data/a".to_string(), "/data/b".to_string(), "/data/\u{00e9}".to_string()]);
    store.remove_watch("/data/a").unwrap();
    let mut paths = store.list_watches().unwrap();
    paths.sort();
    assert_eq!(paths, vec!["/data/b".to_string(), "/data/\u{00e9}".to_string()]);
}

#[test]
fn allow_then_disallow_leaves_the_peer_out() {
    let mut store = Store::temporary().unwrap();
    store.allow_peer("/data/a.txt", peer(1)).unwrap();
    store.allow_peer("/data/a.txt", peer(2)).unwrap();
    assert_eq!(store.get_permissions("/data/a.txt").unwrap(), vec![peer(1), peer(2)]);
    store.disallow_peer("/data/a.txt", peer(1)).unwrap();
    assert_eq!(store.get_permissions("/data/a.txt").unwrap(), vec![peer(2)]);
    store.disallow_peer("/data/a.txt", peer(2)).unwrap();
    assert_eq!(store.get_permissions("/data/a.txt").unwrap(), vec![]);
}

#[test]
fn allow_twice_leaves_a_single_occurrence() {
    let mut store = Store::temporary().unwrap();
    store.allow_peer("/data/a.txt", peer(7)).unwrap();
    store.allow_peer("/data/a.txt", peer(7)).unwrap();
    let peers = store.get_permissions("/data/a.txt").unwrap();
    assert_eq!(peers.iter().filter(|p| **p == peer(7)).count(), 1);
    assert_eq!(peers, vec![peer(7)]);
}

#[test]
fn disallow_of_an_absent_peer_changes_nothing() {
    let mut store = Store::temporary().unwrap();
    store.disallow_peer("/data/a.txt", peer(1)).unwrap();
    assert_eq!(store.get_permissions("/data/a.txt").unwrap(), vec![]);
    store.allow_peer("/data/a.txt", peer(2)).unwrap();
    store.disallow_peer("/data/a.txt", peer(1)).unwrap();
    assert_eq!(store.get_permissions("/data/a.txt").unwrap(), vec![peer(2)]);
}

#[test]
fn permissions_are_exact_to_the_path() {
    let mut store = Store::temporary().unwrap();
    store.allow_peer("/data/dir", peer(1)).unwrap();
    assert_eq!(store.get_permissions("/data").unwrap(), vec![]);
    assert_eq!(store.get_permissions("/data/dir/a.txt").unwrap(), vec![]);
    assert_eq!(store.get_permissions("/data/dir2").unwrap(), vec![]);
    assert_eq!(store.get_permissions("/data/dir").unwrap(), vec![peer(1)]);
}

#[test]
fn add_sync_appends_and_keeps_duplicates() {
    let mut store = Store::temporary().unwrap();
    store.add_sync(peer(1), "/r".to_string(), "/l").unwrap();
    store.add_sync(peer(2), "/other".to_string(), "/l").unwrap();
    store.add_sync(peer(1), "/r".to_string(), "/l").unwrap();
    store.add_sync(peer(3), "/x".to_string(), "/m").unwrap();
    let mut syncs = store.list_syncs().unwrap();
    syncs.sort_by(|a, b| a.0.cmp(&b.0));
    let one = SyncConfig { peer: peer(1), remote_path: "/r".to_string() };
    let two = SyncConfig { peer: peer(2), remote_path: "/other".to_string() };
    let three = SyncConfig { peer: peer(3), remote_path: "/x".to_string() };
    assert_eq!(
        syncs,
        vec![("/l".to_string(), vec![one.clone(), two, one]), ("/m".to_string(), vec![three])]
    );
    // Registrations, permissions and watches do not touch each other.
    assert_eq!(store.list_watches().unwrap(), Vec::<String>::new());
    assert_eq!(store.get_permissions("/l").unwrap(), vec![]);
}

#[test]
fn a_store_on_disk_keeps_what_was_written() {
    let dir = "/tmp/syncr_store_test_on_disk";
    {
        let mut store = reopen(dir);
        store.remove_watch("/data/kept").unwrap();
        store.disallow_peer("/data/kept", peer(9)).unwrap();
        assert_eq!(store.get_permissions("/data/kept").unwrap(), vec![]);
        store.add_watch("/data/kept").unwrap();
        store.allow_peer("/data/kept", peer(9)).unwrap();
    }
    let mut store = reopen(dir);
    assert_eq!(store.get_permissions("/data/kept").unwrap(), vec![peer(9)]);
    assert_eq!(store.remove_watch("/data/kept").unwrap(), true);
    store.disallow_peer("/data/kept", peer(9)).unwrap();
}

#[test]
fn peer_lists_agree_with_postcard() {
    let peers = vec![peer(1), peer(2), peer(200)];
    let plain: Vec<[u8; 32]> = peers.iter().map(|p| p.bytes).collect();
    let bytes = encode_peers(&peers);
    assert_eq!(bytes, postcard::to_stdvec(&plain).unwrap());
    assert_eq!(bytes.len(), 1 + 3 * 32);
    assert_eq!(decode_peers(&bytes), Some(peers));
    assert_eq!(encode_peers(&vec![]), vec![0]);
    assert_eq!(decode_peers(&[0]), Some(vec![]));
}

#[test]
fn registrations_agree_with_postcard() {
    let configs = vec![
        SyncConfig { peer: peer(1), remote_path: "/r".to_string() },
        SyncConfig { peer: peer(2), remote_path: "/r/\u{4e2d}".to_string() },
    ];
    let plain: Vec<([u8; 32], String)> =
        configs.iter().map(|c| (c.peer.bytes, c.remote_path.clone())).collect();
    let bytes = encode_configs(&configs);
    assert_eq!(bytes, postcard::to_stdvec(&plain).unwrap());
    assert_eq!(decode_configs(&bytes), Some(configs));
}

#[test]
fn malformed_stored_lists_are_refused() {
    assert_eq!(decode_peers(&[]), None);
    assert_eq!(decode_peers(&[1]), None);
    assert_eq!(decode_peers(&[1; 32]), None);
    assert_eq!(decode_peers(&[2; 40]), None);
    assert_eq!(decode_configs(&[]), None);
    let mut short = vec![1u8];
    short.extend_from_slice(&[7; 32]);
    assert_eq!(decode_configs(&short), None);
    short.extend_from_slice(&[2, 0xff, 0xfe]);
    assert_eq!(decode_configs(&short), None);
}

#[test]
fn list_helpers_follow_the_list_rules() {
    let mut peers = vec![peer(1)];
    assert!(allow_in(&mut peers, peer(2)));
    assert!(!allow_in(&mut peers, peer(1)));
    assert_eq!(peers, vec![peer(1), peer(2)]);
    assert!(contains_peer(&peers, &peer(2)));
    assert!(!contains_peer(&peers, &peer(3)));
    assert!(!disallow_in(&mut peers, peer(3)));
    assert!(disallow_in(&mut peers, peer(1)));
    assert_eq!(peers, vec![peer(2)]);
    // Only the first occurrence leaves a list that holds a peer twice.
    let mut twice = vec![peer(5), peer(6), peer(5)];
    assert!(disallow_in(&mut twice, peer(5)));
    assert_eq!(twice, vec![peer(6), peer(5)]);
}

#[test]
fn entries_with_bad_keys_or_values_are_errors() {
    let good_value = encode_configs(&vec![SyncConfig { peer: peer(1), remote_path: "/r".to_string() }]);
    let good = (b"/l".to_vec(), good_value.clone());
    let bad_key = (vec![0xff, 0xfe], good_value.clone());
    let bad_value = (b"/m".to_vec(), vec![3u8, 1, 2]);
    assert!(matches!(entry_paths(&vec![good.clone(), bad_key.clone()]), Err(StoreError::SystemError(_))));
    assert_eq!(entry_paths(&vec![good.clone(), bad_value.clone()]).unwrap(), vec!["/l", "/m"]);
    assert!(matches!(entry_syncs(&vec![good.clone(), bad_key.clone(), bad_value.clone()]), Err(StoreError::SystemError(_))));
    assert!(matches!(entry_syncs(&vec![good.clone(), bad_value, bad_key]), Err(StoreError::SerializationError)));
    assert_eq!(entry_syncs(&vec![good]).unwrap().len(), 1);
}

#[test]
fn a_database_that_cannot_be_opened_is_a_db_error() {
    assert!(matches!(Store::new("/dev/null/syncr/db"), Err(StoreError::DbError(_))));
}

#[test]
fn the_store_keeps_its_data_in_three_named_trees() {
    let dir = "/tmp/syncr_store_test_namespaces";
    {
        let mut store = reopen(dir);
        store.add_watch("/w").unwrap();
        store.allow_peer("/p", peer(1)).unwrap();
        store.add_sync(peer(2), "/r".to_string(), "/l").unwrap();
    }
    let db = reopen_raw(dir);
    let names: Vec<Vec<u8>> = db.tree_names().iter().map(|n| n.to_vec()).collect();
    for name in ["watches", "permissions", "syncs"] {
        assert!(names.contains(&name.as_bytes().to_vec()), "{}", name);
    }
    let watches = db.open_tree("watches").unwrap();
    let permissions = db.open_tree("permissions").unwrap();
    let syncs = db.open_tree("syncs").unwrap();
    assert_eq!(watches.name().to_vec(), b"watches".to_vec());
    assert!(watches.contains_key("/w").unwrap());
    assert!(permissions.contains_key("/p").unwrap());
    assert!(syncs.contains_key("/l").unwrap());
    assert!(!watches.contains_key("/p").unwrap());
    assert!(!permissions.contains_key("/l").unwrap());
    assert!(!syncs.contains_key("/w").unwrap());
}

#[test]
fn an_entry_that_cannot_be_read_fails_the_listing() {
    let dir = "/tmp/syncr_store_test_unreadable";
    {
        let db = reopen_raw(dir);
        let syncs = db.open_tree("syncs").unwrap();
        syncs.clear().unwrap();
        syncs.insert("/l", vec![3u8, 1, 2]).unwrap();
        let permissions = db.open_tree("permissions").unwrap();
        permissions.insert("/p", vec![2u8, 0]).unwrap();
        db.flush().unwrap();
    }
    {
        let mut store = reopen(dir);
        assert!(matches!(store.list_syncs(), Err(StoreError::SerializationError)));
        assert!(matches!(store.get_permissions("/p"), Err(StoreError::SerializationError)));
        assert!(matches!(store.allow_peer("/p", peer(1)), Err(StoreError::SerializationError)));
        assert!(matches!(
            store.add_sync(peer(1), "/r".to_string(), "/l"),
            Err(StoreError::SerializationError)
        ));
        let manager = syncr::sync_manager::SyncManager::new(store, syncr::watcher::FileWatcher::new());
        assert!(matches!(
            manager.handle_local_change("/l/x"),
            Err(StoreError::SerializationError)
        ));
    }
    {
        let db = reopen_raw(dir);
        let syncs = db.open_tree("syncs").unwrap();
        syncs.clear().unwrap();
        syncs.insert(vec![0xffu8, 0xfe], vec![0u8]).unwrap();
        db.flush().unwrap();
    }
    let store = reopen(dir);
    assert!(matches!(store.list_syncs(), Err(StoreError::SystemError(_))));
}
