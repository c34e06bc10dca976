//! The metadata store: watched paths, the peers allowed on each path, and
//! the sync registrations rooted at each local path, kept in three trees
//! of a `sled` database.
//!
//! A path is stored as its UTF-8 bytes. Contracts speak of the trees'
//! contents as maps from key bytes to value bytes.

use vstd::prelude::*;
use vstd::utf8::{decode_utf8, encode_utf8, valid_utf8, decode_utf8_encode_utf8};
use crate::peer::{peers_view, PeerId, PEER_ID_LEN};
use crate::records::{
    allow_in, configs_view, dec_configs, dec_peers, decode_configs, decode_peers, disallow_in,
    enc_configs, enc_peers, encode_configs, encode_peers, lemma_allow_then_disallow,
    lemma_allowed_once, lemma_dec_peers_fit, lemma_peers_roundtrip, occurrences, peers_allowed,
    peers_disallowed, SyncConfigView,
};
use crate::wire::string_from_utf8;

pub use crate::records::SyncConfig;


verus! {

#[verifier::external_type_specification]
#[verifier::external_body]
pub struct ExDb(sled::Db);

#[verifier::external_type_specification]
#[verifier::external_body]
pub struct ExTree(sled::Tree);

#[verifier::external_type_specification]
#[verifier::external_body]
pub struct ExDbError(sled::Error);

/// What a tree holds: its keys, each with its value.
pub uninterp spec fn tree_content(tree: sled::Tree) -> Map<Seq<u8>, Seq<u8>>;

#[derive(Debug)]
pub enum StoreError {
    /// The database failed.
    DbError(sled::Error),
    /// A stored value is not a list of the kind its tree keeps.
    SerializationError,
    /// A stored key is not a path.
    SystemError(String),
}

pub type Result<T> = std::result::Result<T, StoreError>;

pub struct Store {
    watches: sled::Tree,
    permissions: sled::Tree,
    syncs: sled::Tree,
}

/// The key that a path is stored under.
pub open spec fn path_key(path: Seq<char>) -> Seq<u8> {
    encode_utf8(path)
}

/// `entries` lists what `content` holds: every entry is in the map, every
/// key of the map has an entry, and no key is listed twice.
pub open spec fn lists_content(
    entries: Seq<(Vec<u8>, Vec<u8>)>,
    content: Map<Seq<u8>, Seq<u8>>,
) -> bool {
    &&& forall|i: int|
        0 <= i < entries.len() ==> content.contains_key((#[trigger] entries[i]).0@)
            && content[entries[i].0@] == entries[i].1@
    &&& forall|k: Seq<u8>| #[trigger]
        content.contains_key(k) ==> exists|i: int|
            0 <= i < entries.len() && (#[trigger] entries[i]).0@ == k
    &&& forall|i: int, j: int|
        0 <= i < j < entries.len() ==> (#[trigger] entries[i]).0@ != (#[trigger] entries[j]).0@
}

/// The peers allowed on `path` in the permissions `m`: none when the path
/// has no entry, `None` when its entry is no list of peers.
pub open spec fn peers_at(m: Map<Seq<u8>, Seq<u8>>, path: Seq<char>) -> Option<Seq<Seq<u8>>> {
    if m.contains_key(path_key(path)) {
        dec_peers(m[path_key(path)])
    } else {
        Some(Seq::<Seq<u8>>::empty())
    }
}

/// The permissions after `peer` is allowed on `path`: the path's list is
/// rewritten with the peer at its end, unless the peer is in it already.
pub open spec fn map_allowed(m: Map<Seq<u8>, Seq<u8>>, path: Seq<char>, peer: Seq<u8>) -> Option<
    Map<Seq<u8>, Seq<u8>>,
> {
    match peers_at(m, path) {
        Some(peers) => Some(
            if peers.contains(peer) {
                m
            } else {
                m.insert(path_key(path), enc_peers(peers.push(peer)))
            },
        ),
        None => None,
    }
}

/// The permissions after `peer` is disallowed on `path`: the path's list
/// is rewritten without the peer's first occurrence, if it has one.
pub open spec fn map_disallowed(m: Map<Seq<u8>, Seq<u8>>, path: Seq<char>, peer: Seq<u8>) -> Option<
    Map<Seq<u8>, Seq<u8>>,
> {
    match peers_at(m, path) {
        Some(peers) => Some(
            if peers.contains(peer) {
                m.insert(path_key(path), enc_peers(peers_disallowed(peers, peer)))
            } else {
                m
            },
        ),
        None => None,
    }
}

/// The registrations rooted at `path` in `m`.
pub open spec fn configs_at(m: Map<Seq<u8>, Seq<u8>>, path: Seq<char>) -> Option<
    Seq<SyncConfigView>,
> {
    if m.contains_key(path_key(path)) {
        dec_configs(m[path_key(path)])
    } else {
        Some(Seq::<SyncConfigView>::empty())
    }
}

/// The registrations after one more is added under `local_path`.
pub open spec fn map_sync_added(
    m: Map<Seq<u8>, Seq<u8>>,
    local_path: Seq<char>,
    config: SyncConfigView,
) -> Option<Map<Seq<u8>, Seq<u8>>> {
    match configs_at(m, local_path) {
        Some(configs) => Some(m.insert(path_key(local_path), enc_configs(configs.push(config)))),
        None => None,
    }
}

/// The registration of `peer` for `remote_path`.
pub open spec fn registration(peer: Seq<u8>, remote_path: Seq<char>) -> SyncConfigView {
    SyncConfigView { peer, remote_path }
}

/// What a successful `allow_peer` does to the permissions: the stored map
/// changes as `map_allowed` says, and the path's list reads back as the
/// old list with the peer allowed.
pub open spec fn allow_effect(
    before: Map<Seq<u8>, Seq<u8>>,
    after: Map<Seq<u8>, Seq<u8>>,
    path: Seq<char>,
    peer: Seq<u8>,
) -> bool {
    &&& map_allowed(before, path, peer) == Some(after)
    &&& peers_at(before, path) matches Some(peers)
    &&& peers_at(after, path) == Some(peers_allowed(peers, peer))
}

/// What a successful `disallow_peer` does to the permissions.
pub open spec fn disallow_effect(
    before: Map<Seq<u8>, Seq<u8>>,
    after: Map<Seq<u8>, Seq<u8>>,
    path: Seq<char>,
    peer: Seq<u8>,
) -> bool {
    &&& map_disallowed(before, path, peer) == Some(after)
    &&& peers_at(before, path) matches Some(peers)
    &&& peers_at(after, path) == Some(peers_disallowed(peers, peer))
}

/// What a successful `add_sync` does to the registrations.
pub open spec fn add_sync_effect(
    before: Map<Seq<u8>, Seq<u8>>,
    after: Map<Seq<u8>, Seq<u8>>,
    local_path: Seq<char>,
    config: SyncConfigView,
) -> bool {
    &&& map_sync_added(before, local_path, config) == Some(after)
    &&& configs_at(before, local_path) matches Some(configs)
    &&& configs_at(after, local_path) == Some(configs.push(config))
}

/// `sled::open`: the database at `path`, created if there is none.
#[verifier::external_body]
fn open_db(path: &str) -> std::result::Result<sled::Db, sled::Error> {
    sled::open(path)
}

/// `sled::Config::open` on a temporary configuration: a database that is
/// removed when it is dropped.
#[verifier::external_body]
fn open_temporary_db() -> std::result::Result<sled::Db, sled::Error> {
    sled::Config::new().temporary(true).open()
}

/// `sled::Db::open_tree`: the tree of that name, created if there is none.
/// The tree it hands out goes by the name it was asked for.
#[verifier::external_body]
fn open_tree(db: &sled::Db, name: &str) -> (r: std::result::Result<sled::Tree, sled::Error>)
    ensures
        r matches Ok(tree) ==> tree_name(tree) == encode_utf8(name@),
{
    db.open_tree(name)
}

/// `sled::Tree::insert`: sets `key` to `value` and leaves the other keys
/// as they are. The tree keeps its name.
#[verifier::external_body]
fn tree_insert(tree: &mut sled::Tree, key: &[u8], value: &[u8]) -> (r: std::result::Result<
    (),
    sled::Error,
>)
    ensures
        r is Ok ==> tree_content(*final(tree)) == tree_content(*old(tree)).insert(key@, value@),
        tree_name(*final(tree)) == tree_name(*old(tree)),
{
    tree.insert(key, value).map(|_| ())
}

/// `sled::Tree::remove`: takes `key` out, leaves the other keys as they
/// are, and says whether the key was there. The tree keeps its name.
#[verifier::external_body]
fn tree_remove(tree: &mut sled::Tree, key: &[u8]) -> (r: std::result::Result<bool, sled::Error>)
    ensures
        r matches Ok(existed) ==> existed == tree_content(*old(tree)).contains_key(key@)
            && tree_content(*final(tree)) == tree_content(*old(tree)).remove(key@),
        tree_name(*final(tree)) == tree_name(*old(tree)),
{
    tree.remove(key).map(|old| old.is_some())
}

/// `sled::Tree::get`: the value of `key`, if the tree has the key.
#[verifier::external_body]
fn tree_get(tree: &sled::Tree, key: &[u8]) -> (r: std::result::Result<Option<Vec<u8>>, sled::Error>)
    ensures
        r matches Ok(found) ==> match found {
            Some(value) => tree_content(*tree).contains_key(key@) && tree_content(*tree)[key@]
                == value@,
            None => !tree_content(*tree).contains_key(key@),
        },
{
    tree.get(key).map(|found| found.map(|value| value.to_vec()))
}

/// `sled::Tree::iter`, collected: every key of the tree once, with its
/// value.
#[verifier::external_body]
fn tree_entries(tree: &sled::Tree) -> (r: std::result::Result<
    Vec<(Vec<u8>, Vec<u8>)>,
    sled::Error,
>)
    ensures
        r matches Ok(entries) ==> lists_content(entries@, tree_content(*tree)),
{
    tree.iter().map(|entry| entry.map(|(k, v)| (k.to_vec(), v.to_vec()))).collect()
}

/// `key` is the stored form of `path`.
pub open spec fn key_spells(key: Seq<u8>, path: Seq<char>) -> bool {
    valid_utf8(key) && path == decode_utf8(key)
}

/// `entry` holds the registrations `configs` under the path `path`.
pub open spec fn entry_holds(
    entry: (Vec<u8>, Vec<u8>),
    path: Seq<char>,
    configs: Seq<SyncConfigView>,
) -> bool {
    key_spells(entry.0@, path) && dec_configs(entry.1@) == Some(configs)
}

/// `entry` holds registrations under some path.
pub open spec fn entry_sound(entry: (Vec<u8>, Vec<u8>)) -> bool {
    valid_utf8(entry.0@) && dec_configs(entry.1@) is Some
}

/// The paths that the keys of `entries` spell, in order. A key that is
/// not UTF-8 is a `SystemError`.
pub fn entry_paths(entries: &Vec<(Vec<u8>, Vec<u8>)>) -> (r: Result<Vec<String>>)
    ensures
        match r {
            Ok(paths) => paths@.len() == entries@.len() && forall|i: int|
                0 <= i < entries@.len() ==> #[trigger] key_spells(entries@[i].0@, paths@[i]@),
            Err(e) => e is SystemError && exists|i: int|
                0 <= i < entries@.len() && !valid_utf8((#[trigger] entries@[i]).0@),
        },
{
    let mut paths: Vec<String> = Vec::new();
    let mut i: usize = 0;
    while i < entries.len()
        invariant
            i <= entries@.len(),
            paths@.len() == i,
            forall|j: int| 0 <= j < i ==> #[trigger] key_spells(entries@[j].0@, paths@[j]@),
        decreases entries@.len() - i,
    {
        let ghost before = paths@;
        match string_from_utf8(vstd::slice::slice_to_vec(entries[i].0.as_slice())) {
            Some(path) => {
                paths.push(path);
                proof {
                    assert forall|j: int| 0 <= j < i + 1 implies #[trigger] key_spells(
                        entries@[j].0@,
                        paths@[j]@,
                    ) by {
                        if j < i {
                            assert(key_spells(entries@[j].0@, before[j]@));
                        }
                    }
                }
            },
            None => {
                return Err(StoreError::SystemError("Invalid path encoding".to_string()));
            },
        }
        i = i + 1;
    }
    Ok(paths)
}

/// The registrations that `entries` hold, each list with the path it is
/// rooted at, in order. The first entry that is not sound decides the
/// error: a key that is not UTF-8 is a `SystemError`, a value that is no
/// list of registrations is a `SerializationError`.
pub fn entry_syncs(entries: &Vec<(Vec<u8>, Vec<u8>)>) -> (r: Result<Vec<(String, Vec<SyncConfig>)>>)
    ensures
        match r {
            Ok(syncs) => syncs@.len() == entries@.len() && forall|i: int|
                0 <= i < entries@.len() ==> #[trigger] entry_holds(
                    entries@[i],
                    syncs@[i].0@,
                    configs_view(syncs@[i].1@),
                ),
            Err(e) => exists|i: int|
                0 <= i < entries@.len() && !(#[trigger] entry_sound(entries@[i])) && (forall|j: int|
                    0 <= j < i ==> #[trigger] entry_sound(entries@[j])) && (e is SystemError
                    <==> !valid_utf8(entries@[i].0@)) && (e is SerializationError <==> valid_utf8(
                    entries@[i].0@,
                )),
        },
{
    let mut syncs: Vec<(String, Vec<SyncConfig>)> = Vec::new();
    let mut i: usize = 0;
    while i < entries.len()
        invariant
            i <= entries@.len(),
            syncs@.len() == i,
            forall|j: int|
                0 <= j < i ==> #[trigger] entry_holds(
                    entries@[j],
                    syncs@[j].0@,
                    configs_view(syncs@[j].1@),
                ),
            forall|j: int| 0 <= j < i ==> #[trigger] entry_sound(entries@[j]),
        decreases entries@.len() - i,
    {
        let ghost before = syncs@;
        let path = match string_from_utf8(vstd::slice::slice_to_vec(entries[i].0.as_slice())) {
            Some(path) => path,
            None => {
                assert(!entry_sound(entries@[i as int]));
                return Err(StoreError::SystemError("Invalid path key".to_string()));
            },
        };
        let configs = match decode_configs(entries[i].1.as_slice()) {
            Some(configs) => configs,
            None => {
                assert(!entry_sound(entries@[i as int]));
                return Err(StoreError::SerializationError);
            },
        };
        syncs.push((path, configs));
        proof {
            assert(entry_sound(entries@[i as int]));
            assert forall|j: int| 0 <= j < i + 1 implies #[trigger] entry_holds(
                entries@[j],
                syncs@[j].0@,
                configs_view(syncs@[j].1@),
            ) by {
                if j < i {
                    assert(entry_holds(entries@[j], before[j].0@, configs_view(before[j].1@)));
                }
            }
        }
        i = i + 1;
    }
    Ok(syncs)
}


/// `paths` lists the watched keys: every path is watched, every watched
/// key has its path, and no path is listed twice.
pub open spec fn lists_watches(paths: Seq<String>, keys: Set<Seq<u8>>) -> bool {
    &&& forall|i: int| 0 <= i < paths.len() ==> keys.contains(path_key((#[trigger] paths[i])@))
    &&& forall|k: Seq<u8>| #[trigger]
        keys.contains(k) ==> exists|i: int|
            0 <= i < paths.len() && path_key((#[trigger] paths[i])@) == k
    &&& forall|i: int, j: int|
        0 <= i < j < paths.len() ==> (#[trigger] paths[i])@ != (#[trigger] paths[j])@
}

/// `syncs` lists the registrations in `m`: every local root of `m` once,
/// with the registrations stored under it.
pub open spec fn lists_syncs(syncs: Seq<(String, Vec<SyncConfig>)>, m: Map<Seq<u8>, Seq<u8>>) -> bool {
    &&& forall|i: int|
        0 <= i < syncs.len() ==> m.contains_key(path_key((#[trigger] syncs[i]).0@)) && configs_at(
            m,
            syncs[i].0@,
        ) == Some(configs_view(syncs[i].1@))
    &&& forall|k: Seq<u8>| #[trigger]
        m.contains_key(k) ==> exists|i: int|
            0 <= i < syncs.len() && path_key((#[trigger] syncs[i]).0@) == k
    &&& forall|i: int, j: int|
        0 <= i < j < syncs.len() ==> (#[trigger] syncs[i]).0@ != (#[trigger] syncs[j]).0@
}

impl Store {
    /// The keys of the watched paths.
    pub closed spec fn watch_keys(&self) -> Set<Seq<u8>> {
        tree_content(self.watches).dom()
    }

    /// The stored permissions: for the key of a path, its list of peers.
    pub closed spec fn permission_map(&self) -> Map<Seq<u8>, Seq<u8>> {
        tree_content(self.permissions)
    }

    /// The stored registrations: for the key of a local root, its list.
    pub closed spec fn sync_map(&self) -> Map<Seq<u8>, Seq<u8>> {
        tree_content(self.syncs)
    }

    /// Whether `path` is watched.
    pub open spec fn watches(&self, path: Seq<char>) -> bool {
        self.watch_keys().contains(path_key(path))
    }

    /// The peers allowed on `path`, or `None` when its entry is corrupt.
    pub open spec fn peers(&self, path: Seq<char>) -> Option<Seq<Seq<u8>>> {
        peers_at(self.permission_map(), path)
    }

    /// The registrations rooted at `path`, or `None` when its entry is
    /// corrupt.
    pub open spec fn configs(&self, path: Seq<char>) -> Option<Seq<SyncConfigView>> {
        configs_at(self.sync_map(), path)
    }

    fn with_trees(db: sled::Db) -> (r: Result<Store>)
        ensures
            r matches Ok(store) ==> store.partitioned(),
            r matches Err(e) ==> e is DbError,
    {
        let watches = match open_tree(&db, WATCHES) {
            Ok(tree) => tree,
            Err(e) => { return Err(StoreError::DbError(e)); },
        };
        let permissions = match open_tree(&db, PERMISSIONS) {
            Ok(tree) => tree,
            Err(e) => { return Err(StoreError::DbError(e)); },
        };
        let syncs = match open_tree(&db, SYNCS) {
            Ok(tree) => tree,
            Err(e) => { return Err(StoreError::DbError(e)); },
        };
        Ok(Store { watches, permissions, syncs })
    }

    /// Opens the three namespaces in the database directory `path`.
    pub fn new(path: &str) -> (r: Result<Store>)
        ensures
            r matches Ok(store) ==> store.partitioned(),
            r matches Err(e) ==> e is DbError,
    {
        match open_db(path) {
            Ok(db) => Store::with_trees(db),
            Err(e) => Err(StoreError::DbError(e)),
        }
    }

    /// Opens a store of its own that holds nothing and is gone when dropped.
    pub fn temporary() -> (r: Result<Store>)
        ensures
            r matches Ok(store) ==> store.partitioned() && store.holds_nothing(),
            r matches Err(e) ==> e is DbError || e is SystemError,
    {
        let store = match open_temporary_db() {
            Ok(db) => match Store::with_trees(db) {
                Ok(store) => store,
                Err(e) => { return Err(e); },
            },
            Err(e) => { return Err(StoreError::DbError(e)); },
        };
        // A database of its own hands out empty trees; anything else is refused.
        match store.is_blank() {
            Ok(true) => Ok(store),
            Ok(false) => Err(StoreError::SystemError("Temporary store is not empty".to_string())),
            Err(e) => Err(e),
        }
    }

    /// The names of the trees that hold the watches, the permissions and
    /// the registrations.
    pub closed spec fn namespaces(&self) -> (Seq<u8>, Seq<u8>, Seq<u8>) {
        (tree_name(self.watches), tree_name(self.permissions), tree_name(self.syncs))
    }

    /// The store is partitioned into the three namespaces `watches`,
    /// `permissions` and `syncs` of its database.
    pub open spec fn partitioned(&self) -> bool {
        self.namespaces() == (encode_utf8(WATCHES@), encode_utf8(PERMISSIONS@), encode_utf8(SYNCS@))
    }

    /// The store holds nothing: no watch, no permission, no registration.
    pub open spec fn holds_nothing(&self) -> bool {
        &&& self.watch_keys() == Set::<Seq<u8>>::empty()
        &&& self.permission_map() == Map::<Seq<u8>, Seq<u8>>::empty()
        &&& self.sync_map() == Map::<Seq<u8>, Seq<u8>>::empty()
    }

    /// Whether the tree holds no key at all.
    fn tree_is_blank(tree: &sled::Tree) -> (r: std::result::Result<bool, sled::Error>)
        ensures
            r matches Ok(blank) ==> blank == (tree_content(*tree) == Map::<
                Seq<u8>,
                Seq<u8>,
            >::empty()),
    {
        match tree_entries(tree) {
            Ok(entries) => {
                let blank = entries.len() == 0;
                proof {
                    let content = tree_content(*tree);
                    if blank {
                        assert forall|k: Seq<u8>| !content.contains_key(k) by {
                            if content.contains_key(k) {
                                let i = choose|i: int|
                                    0 <= i < entries@.len() && (#[trigger] entries@[i]).0@ == k;
                            }
                        }
                        assert(content =~= Map::<Seq<u8>, Seq<u8>>::empty());
                    } else {
                        assert(content.contains_key(entries@[0].0@));
                    }
                }
                Ok(blank)
            },
            Err(e) => Err(e),
        }
    }

    /// Whether the store holds nothing.
    fn is_blank(&self) -> (r: Result<bool>)
        ensures
            r matches Ok(blank) ==> blank == self.holds_nothing(),
            r matches Err(e) ==> e is DbError,
    {
        let watches = match Store::tree_is_blank(&self.watches) {
            Ok(blank) => blank,
            Err(e) => { return Err(StoreError::DbError(e)); },
        };
        let permissions = match Store::tree_is_blank(&self.permissions) {
            Ok(blank) => blank,
            Err(e) => { return Err(StoreError::DbError(e)); },
        };
        let syncs = match Store::tree_is_blank(&self.syncs) {
            Ok(blank) => blank,
            Err(e) => { return Err(StoreError::DbError(e)); },
        };
        proof {
            if watches {
                assert(self.watch_keys() =~= Set::<Seq<u8>>::empty());
            } else if self.watch_keys() == Set::<Seq<u8>>::empty() {
                assert(tree_content(self.watches) =~= Map::<Seq<u8>, Seq<u8>>::empty());
            }
        }
        Ok(watches && permissions && syncs)
    }

    /// Marks `path` as watched. Watching a watched path changes nothing.
    pub fn add_watch(&mut self, path: &str) -> (r: Result<()>)
        ensures
            final(self).namespaces() == old(self).namespaces(),
            r is Ok ==> final(self).watch_keys() == old(self).watch_keys().insert(path_key(path@)),
            r matches Err(e) ==> e is DbError,
            final(self).permission_map() == old(self).permission_map(),
            final(self).sync_map() == old(self).sync_map(),
    {
        let nothing: Vec<u8> = Vec::new();
        match tree_insert(&mut self.watches, path.as_bytes(), nothing.as_slice()) {
            Ok(()) => {},
            Err(e) => { return Err(StoreError::DbError(e)); },
        }
        proof {
            assert(self.watch_keys() =~= old(self).watch_keys().insert(path_key(path@)));
        }
        match tree_flush(&self.watches) {
            Ok(()) => Ok(()),
            Err(e) => Err(StoreError::DbError(e)),
        }
    }

    /// Stops watching `path`, and says whether it was watched.
    pub fn remove_watch(&mut self, path: &str) -> (r: Result<bool>)
        ensures
            final(self).namespaces() == old(self).namespaces(),
            r matches Ok(existed) ==> existed == old(self).watches(path@),
            r is Ok ==> final(self).watch_keys() == old(self).watch_keys().remove(path_key(path@)),
            r matches Err(e) ==> e is DbError,
            final(self).permission_map() == old(self).permission_map(),
            final(self).sync_map() == old(self).sync_map(),
    {
        let existed = match tree_remove(&mut self.watches, path.as_bytes()) {
            Ok(existed) => existed,
            Err(e) => { return Err(StoreError::DbError(e)); },
        };
        proof {
            assert(self.watch_keys() =~= old(self).watch_keys().remove(path_key(path@)));
        }
        match tree_flush(&self.watches) {
            Ok(()) => Ok(existed),
            Err(e) => Err(StoreError::DbError(e)),
        }
    }

    /// The watched paths. A stored key that is no path is a
    /// `SystemError`.
    pub fn list_watches(&self) -> (r: Result<Vec<String>>)
        ensures
            match r {
                Ok(paths) => lists_watches(paths@, self.watch_keys()),
                Err(e) => e is DbError || (e is SystemError && exists|k: Seq<u8>|
                    self.watch_keys().contains(k) && !valid_utf8(k)),
            },
    {
        let entries = match tree_entries(&self.watches) {
            Ok(entries) => entries,
            Err(e) => { return Err(StoreError::DbError(e)); },
        };
        let r = entry_paths(&entries);
        proof {
            let keys = self.watch_keys();
            match &r {
                Ok(paths) => {
                    assert forall|i: int| 0 <= i < paths@.len() implies keys.contains(
                        path_key((#[trigger] paths@[i])@),
                    ) && path_key(paths@[i]@) == entries@[i].0@ by {
                        assert(key_spells(entries@[i].0@, paths@[i]@));
                        decode_utf8_encode_utf8(entries@[i].0@);
                    }
                    assert forall|k: Seq<u8>| #[trigger] keys.contains(k) implies exists|i: int|
                        0 <= i < paths@.len() && path_key((#[trigger] paths@[i])@) == k by {
                        let i = choose|i: int|
                            0 <= i < entries@.len() && (#[trigger] entries@[i]).0@ == k;
                        assert(path_key(paths@[i]@) == k);
                    }
                    assert forall|i: int, j: int| 0 <= i < j < paths@.len() implies (
                    #[trigger] paths@[i])@ != (#[trigger] paths@[j])@ by {
                        assert(entries@[i].0@ != entries@[j].0@);
                    }
                },
                Err(_) => {
                    let i = choose|i: int|
                        0 <= i < entries@.len() && !valid_utf8((#[trigger] entries@[i]).0@);
                    assert(keys.contains(entries@[i].0@));
                },
            }
        }
        r
    }

    /// The peers allowed on `path`, in the order they were allowed.
    pub fn get_permissions(&self, path: &str) -> (r: Result<Vec<PeerId>>)
        ensures
            match r {
                Ok(peers) => self.peers(path@) == Some(peers_view(peers@)),
                Err(e) => e is DbError || (e is SerializationError && self.peers(path@) is None),
            },
    {
        let found = match tree_get(&self.permissions, path.as_bytes()) {
            Ok(found) => found,
            Err(e) => { return Err(StoreError::DbError(e)); },
        };
        match found {
            Some(bytes) => match decode_peers(bytes.as_slice()) {
                Some(peers) => Ok(peers),
                None => Err(StoreError::SerializationError),
            },
            None => {
                let peers: Vec<PeerId> = Vec::new();
                proof {
                    assert(peers_view(peers@) =~= Seq::<Seq<u8>>::empty());
                }
                Ok(peers)
            },
        }
    }

    /// Grants `peer` the right to start a sync of `path`. Allowing a peer
    /// that is allowed already changes nothing.
    pub fn allow_peer(&mut self, path: &str, peer: PeerId) -> (r: Result<()>)
        ensures
            final(self).namespaces() == old(self).namespaces(),
            match r {
                Ok(()) => allow_effect(
                    old(self).permission_map(),
                    final(self).permission_map(),
                    path@,
                    peer@,
                ),
                Err(e) => e is DbError || (e is SerializationError && old(self).peers(path@)
                    is None && final(self).permission_map() == old(self).permission_map()),
            },
            final(self).watch_keys() == old(self).watch_keys(),
            final(self).sync_map() == old(self).sync_map(),
    {
        let mut peers = match self.get_permissions(path) {
            Ok(peers) => peers,
            Err(e) => { return Err(e); },
        };
        if allow_in(&mut peers, peer) {
            let bytes = encode_peers(&peers);
            match tree_insert(&mut self.permissions, path.as_bytes(), bytes.as_slice()) {
                Ok(()) => {},
                Err(e) => { return Err(StoreError::DbError(e)); },
            }
            match tree_flush(&self.permissions) {
                Ok(()) => Ok(()),
                Err(e) => Err(StoreError::DbError(e)),
            }
        } else {
            Ok(())
        }
    }

    /// Revokes what `allow_peer` granted. Disallowing a peer that is not
    /// allowed changes nothing.
    pub fn disallow_peer(&mut self, path: &str, peer: PeerId) -> (r: Result<()>)
        ensures
            final(self).namespaces() == old(self).namespaces(),
            match r {
                Ok(()) => disallow_effect(
                    old(self).permission_map(),
                    final(self).permission_map(),
                    path@,
                    peer@,
                ),
                Err(e) => e is DbError || (e is SerializationError && old(self).peers(path@)
                    is None && final(self).permission_map() == old(self).permission_map()),
            },
            final(self).watch_keys() == old(self).watch_keys(),
            final(self).sync_map() == old(self).sync_map(),
    {
        let mut peers = match self.get_permissions(path) {
            Ok(peers) => peers,
            Err(e) => { return Err(e); },
        };
        let ghost before = peers_view(peers@);
        if disallow_in(&mut peers, peer) {
            let bytes = encode_peers(&peers);
            match tree_insert(&mut self.permissions, path.as_bytes(), bytes.as_slice()) {
                Ok(()) => {},
                Err(e) => { return Err(StoreError::DbError(e)); },
            }
            match tree_flush(&self.permissions) {
                Ok(()) => Ok(()),
                Err(e) => Err(StoreError::DbError(e)),
            }
        } else {
            proof {
                before.index_of_first_ensures(peer@);
            }
            Ok(())
        }
    }

    /// Registers that changes under `local_path` are to be announced to
    /// `peer` as changes under `remote_path`. A registration that is there
    /// already is added once more.
    pub fn add_sync(&mut self, peer: PeerId, remote_path: String, local_path: &str) -> (r: Result<
        (),
    >)
        ensures
            final(self).namespaces() == old(self).namespaces(),
            match r {
                Ok(()) => add_sync_effect(
                    old(self).sync_map(),
                    final(self).sync_map(),
                    local_path@,
                    registration(peer@, remote_path@),
                ),
                Err(e) => e is DbError || (e is SerializationError && old(self).configs(
                    local_path@,
                ) is None && final(self).sync_map() == old(self).sync_map()),
            },
            final(self).watch_keys() == old(self).watch_keys(),
            final(self).permission_map() == old(self).permission_map(),
    {
        let found = match tree_get(&self.syncs, local_path.as_bytes()) {
            Ok(found) => found,
            Err(e) => { return Err(StoreError::DbError(e)); },
        };
        let mut configs: Vec<SyncConfig> = match found {
            Some(bytes) => match decode_configs(bytes.as_slice()) {
                Some(configs) => configs,
                None => { return Err(StoreError::SerializationError); },
            },
            None => Vec::new(),
        };
        let ghost before = configs_view(configs@);
        let ghost added = SyncConfigView { peer: peer@, remote_path: remote_path@ };
        proof {
            if found is None {
                assert(before =~= Seq::<SyncConfigView>::empty());
            }
        }
        configs.push(SyncConfig { peer, remote_path });
        let bytes = encode_configs(&configs);
        proof {
            assert(configs_view(configs@) =~= before.push(added));
        }
        match tree_insert(&mut self.syncs, local_path.as_bytes(), bytes.as_slice()) {
            Ok(()) => {},
            Err(e) => { return Err(StoreError::DbError(e)); },
        }
        match tree_flush(&self.syncs) {
            Ok(()) => Ok(()),
            Err(e) => Err(StoreError::DbError(e)),
        }
    }

    /// Every local root with the registrations under it. A stored key
    /// that is no path is a `SystemError`; a stored value that is no list
    /// of registrations is a `SerializationError`.
    pub fn list_syncs(&self) -> (r: Result<Vec<(String, Vec<SyncConfig>)>>)
        ensures
            match r {
                Ok(syncs) => lists_syncs(syncs@, self.sync_map()),
                Err(e) => e is DbError || ((e is SystemError || e is SerializationError)
                    && exists|k: Seq<u8>| #[trigger]
                    self.sync_map().contains_key(k) && (!valid_utf8(k) || dec_configs(
                        self.sync_map()[k],
                    ) is None)),
            },
    {
        let entries = match tree_entries(&self.syncs) {
            Ok(entries) => entries,
            Err(e) => { return Err(StoreError::DbError(e)); },
        };
        let r = entry_syncs(&entries);
        proof {
            let m = self.sync_map();
            match &r {
                Ok(syncs) => {
                    assert forall|i: int| 0 <= i < syncs@.len() implies path_key(
                        (#[trigger] syncs@[i]).0@,
                    ) == entries@[i].0@ && m.contains_key(path_key(syncs@[i].0@)) && configs_at(
                        m,
                        syncs@[i].0@,
                    ) == Some(configs_view(syncs@[i].1@)) by {
                        assert(entry_holds(
                            entries@[i],
                            syncs@[i].0@,
                            configs_view(syncs@[i].1@),
                        ));
                        decode_utf8_encode_utf8(entries@[i].0@);
                    }
                    assert forall|k: Seq<u8>| #[trigger] m.contains_key(k) implies exists|i: int|
                        0 <= i < syncs@.len() && path_key((#[trigger] syncs@[i]).0@) == k by {
                        let i = choose|i: int|
                            0 <= i < entries@.len() && (#[trigger] entries@[i]).0@ == k;
                        assert(path_key(syncs@[i].0@) == k);
                    }
                    assert forall|i: int, j: int| 0 <= i < j < syncs@.len() implies (
                    #[trigger] syncs@[i]).0@ != (#[trigger] syncs@[j]).0@ by {
                        assert(entries@[i].0@ != entries@[j].0@);
                    }
                },
                Err(_) => {
                    let i = choose|i: int|
                        0 <= i < entries@.len() && !(#[trigger] entry_sound(entries@[i]));
                    assert(m.contains_key(entries@[i].0@));
                },
            }
        }
        r
    }
}


/// One change to the set of watched paths.
pub enum WatchOp {
    /// `add_watch` of the path with this key.
    Add(Seq<u8>),
    /// `remove_watch` of the path with this key.
    Remove(Seq<u8>),
}

/// The watched keys after the changes `ops`, in order, to `initial`.
pub open spec fn watched_after(initial: Set<Seq<u8>>, ops: Seq<WatchOp>) -> Set<Seq<u8>>
    decreases ops.len(),
{
    if ops.len() == 0 {
        initial
    } else {
        let before = watched_after(initial, ops.drop_last());
        match ops.last() {
            WatchOp::Add(k) => before.insert(k),
            WatchOp::Remove(k) => before.remove(k),
        }
    }
}

/// `key` was added at some point of `ops` and not removed after it.
pub open spec fn added_and_kept(ops: Seq<WatchOp>, key: Seq<u8>) -> bool {
    exists|i: int|
        0 <= i < ops.len() && #[trigger] ops[i] == WatchOp::Add(key) && forall|j: int|
            i < j < ops.len() ==> #[trigger] ops[j] != WatchOp::Remove(key)
}

/// `key` was never removed in `ops`.
pub open spec fn never_removed(ops: Seq<WatchOp>, key: Seq<u8>) -> bool {
    forall|j: int| 0 <= j < ops.len() ==> #[trigger] ops[j] != WatchOp::Remove(key)
}

/// A path is watched, and so `remove_watch` answers `true`, exactly when
/// an `add_watch` of it happened with no `remove_watch` of it since, or it
/// was watched to begin with and has not been removed.
pub proof fn law_watched_iff_added_and_kept(
    initial: Set<Seq<u8>>,
    ops: Seq<WatchOp>,
    key: Seq<u8>,
)
    ensures
        watched_after(initial, ops).contains(key) <==> added_and_kept(ops, key) || (
        initial.contains(key) && never_removed(ops, key)),
    decreases ops.len(),
{
    if ops.len() > 0 {
        let front = ops.drop_last();
        let n = front.len() as int;
        law_watched_iff_added_and_kept(initial, front, key);
        assert forall|j: int| 0 <= j < n implies front[j] == ops[j] by {}
        if ops.last() == WatchOp::Add(key) {
            assert(ops[n] == WatchOp::Add(key));
        } else if ops.last() == WatchOp::Remove(key) {
            assert(ops[n] == WatchOp::Remove(key));
            if added_and_kept(ops, key) {
                let i = choose|i: int|
                    0 <= i < ops.len() && #[trigger] ops[i] == WatchOp::Add(key) && forall|j: int|
                        i < j < ops.len() ==> #[trigger] ops[j] != WatchOp::Remove(key);
                assert(ops[n] != WatchOp::Remove(key));
            }
        } else {
            assert(ops[n] != WatchOp::Add(key));
            assert(ops[n] != WatchOp::Remove(key));
            if added_and_kept(front, key) {
                let i = choose|i: int|
                    0 <= i < front.len() && #[trigger] front[i] == WatchOp::Add(key) && forall|
                        j: int,
                    |
                        i < j < front.len() ==> #[trigger] front[j] != WatchOp::Remove(key);
                assert(ops[i] == WatchOp::Add(key));
                assert forall|j: int| i < j < ops.len() implies #[trigger] ops[j]
                    != WatchOp::Remove(key) by {
                    if j < n {
                        assert(front[j] != WatchOp::Remove(key));
                    }
                }
            }
            if added_and_kept(ops, key) {
                let i = choose|i: int|
                    0 <= i < ops.len() && #[trigger] ops[i] == WatchOp::Add(key) && forall|j: int|
                        i < j < ops.len() ==> #[trigger] ops[j] != WatchOp::Remove(key);
                assert(i < n);
                assert(front[i] == WatchOp::Add(key));
                assert forall|j: int| i < j < front.len() implies #[trigger] front[j]
                    != WatchOp::Remove(key) by {
                    assert(ops[j] != WatchOp::Remove(key));
                }
            }
            if never_removed(front, key) {
                assert forall|j: int| 0 <= j < ops.len() implies #[trigger] ops[j]
                    != WatchOp::Remove(key) by {
                    if j < n {
                        assert(front[j] != WatchOp::Remove(key));
                    }
                }
            }
            if never_removed(ops, key) {
                assert forall|j: int| 0 <= j < front.len() implies #[trigger] front[j]
                    != WatchOp::Remove(key) by {
                    assert(ops[j] != WatchOp::Remove(key));
                }
            }
        }
        if ops.last() == WatchOp::Add(key) {
        } else if ops.last() == WatchOp::Remove(key) {
        } else {
            match ops.last() {
                WatchOp::Add(k) => {
                    assert(k != key);
                },
                WatchOp::Remove(k) => {
                    assert(k != key);
                },
            }
        }
    }
}

/// What allowing does to a path's list: it reads back as the old list
/// with the peer allowed.
pub proof fn lemma_map_allowed(m: Map<Seq<u8>, Seq<u8>>, path: Seq<char>, peer: Seq<u8>)
    requires
        peer.len() == PEER_ID_LEN,
        peers_at(m, path) matches Some(peers) && peers.len() < u64::MAX,
    ensures
        map_allowed(m, path, peer) matches Some(after) && allow_effect(m, after, path, peer),
{
    let peers = peers_at(m, path).unwrap();
    if m.contains_key(path_key(path)) {
        lemma_dec_peers_fit(m[path_key(path)]);
    }
    if !peers.contains(peer) {
        lemma_peers_roundtrip(peers.push(peer));
    }
}

/// What disallowing does to a path's list: it reads back as the old list
/// with the peer disallowed.
pub proof fn lemma_map_disallowed(m: Map<Seq<u8>, Seq<u8>>, path: Seq<char>, peer: Seq<u8>)
    requires
        peers_at(m, path) is Some,
    ensures
        map_disallowed(m, path, peer) matches Some(after) && disallow_effect(m, after, path, peer),
{
    let peers = peers_at(m, path).unwrap();
    if m.contains_key(path_key(path)) {
        lemma_dec_peers_fit(m[path_key(path)]);
    }
    peers.index_of_first_ensures(peer);
    if peers.contains(peer) {
        let i = peers.index_of_first(peer).unwrap();
        peers.remove_ensures(i);
        lemma_peers_roundtrip(peers.remove(i));
    }
}

/// After `allow_peer` and then `disallow_peer` of the same peer on the
/// same path, the peer is not among the path's permissions, provided the
/// stored list did not hold the peer more than once to begin with.
pub proof fn law_allow_then_disallow(m: Map<Seq<u8>, Seq<u8>>, path: Seq<char>, peer: Seq<u8>)
    requires
        peer.len() == PEER_ID_LEN,
        peers_at(m, path) matches Some(peers) && peers.len() < u64::MAX && occurrences(peers, peer)
            <= 1,
    ensures
        ({
            let allowed = map_allowed(m, path, peer);
            let revoked = map_disallowed(allowed.unwrap(), path, peer);
            &&& allowed is Some
            &&& revoked is Some
            &&& peers_at(revoked.unwrap(), path) matches Some(left)
            &&& !left.contains(peer)
        }),
{
    let peers = peers_at(m, path).unwrap();
    lemma_map_allowed(m, path, peer);
    let m1 = map_allowed(m, path, peer).unwrap();
    lemma_map_disallowed(m1, path, peer);
    lemma_allow_then_disallow(peers, peer);
}

/// After `allow_peer` twice of the same peer on the same path, the peer
/// stands once among the path's permissions, and the second call changed
/// nothing, provided the stored list did not hold the peer more than once
/// to begin with.
pub proof fn law_allow_twice(m: Map<Seq<u8>, Seq<u8>>, path: Seq<char>, peer: Seq<u8>)
    requires
        peer.len() == PEER_ID_LEN,
        peers_at(m, path) matches Some(peers) && peers.len() < u64::MAX && occurrences(peers, peer)
            <= 1,
    ensures
        ({
            let once = map_allowed(m, path, peer);
            let twice = map_allowed(once.unwrap(), path, peer);
            &&& once is Some
            &&& twice == once
            &&& peers_at(twice.unwrap(), path) matches Some(now)
            &&& occurrences(now, peer) == 1
        }),
{
    let peers = peers_at(m, path).unwrap();
    lemma_map_allowed(m, path, peer);
    lemma_allowed_once(peers, peer);
    let m1 = map_allowed(m, path, peer).unwrap();
    let now = peers_at(m1, path).unwrap();
    vstd::seq_lib::to_multiset_contains(now, peer);
}

/// `sled::Tree::flush`: returns once earlier writes are on disk.
#[verifier::external_body]
fn tree_flush(tree: &sled::Tree) -> std::result::Result<(), sled::Error> {
    tree.flush().map(|_| ())
}

/// The name that a tree was opened under, as `sled::Tree::name` gives it.
pub uninterp spec fn tree_name(tree: sled::Tree) -> Seq<u8>;

/// The namespace of the watched paths.
pub const WATCHES: &'static str = "watches";

/// The namespace of the permissions.
pub const PERMISSIONS: &'static str = "permissions";

/// The namespace of the sync registrations.
pub const SYNCS: &'static str = "syncs";

} // verus!
