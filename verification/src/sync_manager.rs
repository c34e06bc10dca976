//! The sync manager: it arms the watcher on the stored watches, and turns
//! each local change into the notifications that are owed to peers.

use vstd::prelude::*;
use crate::paths::{join, joined, relative_to, strip_root};
use crate::peer::PeerId;
use crate::records::{configs_view, SyncConfig, SyncConfigView};
use crate::store::{lists_syncs, lists_watches, Store, StoreError};
use crate::watcher::{emitted, texts, EventKind, FileWatcher, WatchEventView, QUEUE_CAPACITY};

verus! {

/// "Tell `peer` that `remote_path` has changed."
#[derive(Debug, Clone, PartialEq, Eq)]
pub struct Notification {
    pub peer: PeerId,
    pub remote_path: String,
}

pub struct NotificationView {
    pub peer: Seq<u8>,
    pub remote_path: Seq<char>,
}

impl View for Notification {
    type V = NotificationView;

    open spec fn view(&self) -> NotificationView {
        NotificationView { peer: self.peer@, remote_path: self.remote_path@ }
    }
}

pub open spec fn notifications_view(notes: Seq<Notification>) -> Seq<NotificationView> {
    notes.map_values(|n: Notification| n@)
}

/// A local root with the registrations under it.
pub type SyncEntry = (String, Vec<SyncConfig>);

pub type SyncEntryView = (Seq<char>, Seq<SyncConfigView>);

pub open spec fn syncs_view(syncs: Seq<SyncEntry>) -> Seq<SyncEntryView> {
    syncs.map_values(|e: SyncEntry| (e.0@, configs_view(e.1@)))
}

/// The notification owed under one registration for a change that lies
/// `rest` below the local root: the remote root itself when `rest` is
/// empty, else `rest` under the remote root.
pub open spec fn note_under(config: SyncConfigView, rest: Seq<char>) -> NotificationView {
    NotificationView { peer: config.peer, remote_path: joined(config.remote_path, rest) }
}

/// One notification per registration, in their order.
pub open spec fn notes_under(configs: Seq<SyncConfigView>, rest: Seq<char>) -> Seq<
    NotificationView,
> {
    configs.map_values(|c: SyncConfigView| note_under(c, rest))
}

/// The notifications owed for a change of `changed`: for every local root
/// that `changed` is or lies under, one per registration of that root.
pub open spec fn notes_for(syncs: Seq<SyncEntryView>, changed: Seq<char>) -> Seq<NotificationView>
    decreases syncs.len(),
{
    if syncs.len() == 0 {
        Seq::<NotificationView>::empty()
    } else {
        let front = notes_for(syncs.drop_last(), changed);
        match relative_to(changed, syncs.last().0) {
            Some(rest) => front + notes_under(syncs.last().1, rest),
            None => front,
        }
    }
}

/// `notes` are the notifications owed for a change of `path` by the
/// registrations in `m`, in some order of the local roots.
pub open spec fn notes_owed(
    m: Map<Seq<u8>, Seq<u8>>,
    path: Seq<char>,
    notes: Seq<NotificationView>,
) -> bool {
    exists|syncs: Seq<SyncEntry>| #[trigger]
        lists_syncs(syncs, m) && notes == notes_for(syncs_view(syncs), path)
}

/// `turn` is an answer to `event` with the registrations `m`: a changed
/// path is answered by the notifications owed for it, unless the database
/// failed or the registrations hold an entry that cannot be read; an
/// error of the notifier is handed on.
pub open spec fn turn_answers(
    event: WatchEventView,
    m: Map<Seq<u8>, Seq<u8>>,
    turn: Turn,
) -> bool {
    match event {
        Ok(path) => match turn {
            Turn::Notify(notes) => notes_owed(m, path, notifications_view(notes@)),
            Turn::StoreFailed(e) => e is DbError || ((e is SystemError || e is SerializationError)
                && holds_unreadable(m)),
            _ => false,
        },
        Err(message) => match turn {
            Turn::WatchFailed(text) => text@ == message,
            _ => false,
        },
    }
}

/// What one turn of the event loop came to.
#[derive(Debug)]
pub enum Turn {
    /// No event is queued.
    Idle,
    /// No event is queued and the watcher has shut down: the loop ends.
    Closed,
    /// A path changed: these notifications are to be sent, each on a
    /// session of its own.
    Notify(Vec<Notification>),
    /// The notifier reported an error; the loop goes on.
    WatchFailed(String),
    /// The store failed while the change was looked up; the loop goes on.
    StoreFailed(StoreError),
}

/// The notifications that the registrations `syncs` owe for a change of
/// `changed`.
pub fn notifications_for(syncs: &Vec<SyncEntry>, changed: &str) -> (r: Vec<Notification>)
    ensures
        notifications_view(r@) == notes_for(syncs_view(syncs@), changed@),
{
    let ghost all = syncs_view(syncs@);
    let mut notes: Vec<Notification> = Vec::new();
    let mut i: usize = 0;
    proof {
        assert(all.take(0) =~= Seq::<SyncEntryView>::empty());
        assert(notifications_view(notes@) =~= Seq::<NotificationView>::empty());
    }
    while i < syncs.len()
        invariant
            i <= syncs@.len(),
            all == syncs_view(syncs@),
            notifications_view(notes@) == notes_for(all.take(i as int), changed@),
        decreases syncs@.len() - i,
    {
        let ghost front = notifications_view(notes@);
        proof {
            assert(all.take(i + 1).drop_last() =~= all.take(i as int));
            assert(all.take(i + 1).last() == all[i as int]);
        }
        match strip_root(changed, syncs[i].0.as_str()) {
            Some(rest) => {
                let configs = &syncs[i].1;
                let ghost views = configs_view(configs@);
                let mut j: usize = 0;
                proof {
                    assert(notes_under(views, rest@).take(0) =~= Seq::<NotificationView>::empty());
                    assert(front + notes_under(views, rest@).take(0) =~= front);
                }
                while j < configs.len()
                    invariant
                        j <= configs@.len(),
                        views == configs_view(configs@),
                        notifications_view(notes@) == front + notes_under(views, rest@).take(
                            j as int,
                        ),
                    decreases configs@.len() - j,
                {
                    let note = Notification {
                        peer: configs[j].peer,
                        remote_path: join(configs[j].remote_path.as_str(), rest.as_str()),
                    };
                    let ghost so_far = notifications_view(notes@);
                    notes.push(note);
                    proof {
                        assert(note@ == note_under(views[j as int], rest@));
                        assert(notifications_view(notes@) =~= so_far.push(note@));
                        assert(notes_under(views, rest@).take(j + 1) =~= notes_under(
                            views,
                            rest@,
                        ).take(j as int).push(note@));
                        assert(notifications_view(notes@) =~= front + notes_under(
                            views,
                            rest@,
                        ).take(j + 1));
                    }
                    j = j + 1;
                }
                proof {
                    assert(notes_under(views, rest@).take(j as int) =~= notes_under(views, rest@));
                }
            },
            None => {},
        }
        i = i + 1;
    }
    proof {
        assert(all.take(i as int) =~= all);
    }
    notes
}

pub struct SyncManager {
    store: Store,
    watcher: FileWatcher,
}

impl SyncManager {
    pub closed spec fn store_view(&self) -> Store {
        self.store
    }

    pub closed spec fn watcher_view(&self) -> FileWatcher {
        self.watcher
    }

    pub fn new(store: Store, watcher: FileWatcher) -> (m: SyncManager)
        ensures
            m.store_view() == store,
            m.watcher_view() == watcher,
    {
        SyncManager { store, watcher }
    }

    /// The store, to read.
    pub fn store(&self) -> (s: &Store)
        ensures
            *s == self.store_view(),
    {
        &self.store
    }

    /// The store, to change.
    pub fn store_mut(&mut self) -> (s: &mut Store)
        ensures
            *s == old(self).store_view(),
            final(self).store_view() == *final(s),
            final(self).watcher_view() == old(self).watcher_view(),
    {
        &mut self.store
    }

    /// The watcher, to feed and to shut down.
    pub fn watcher_mut(&mut self) -> (w: &mut FileWatcher)
        ensures
            *w == old(self).watcher_view(),
            final(self).watcher_view() == *final(w),
            final(self).store_view() == old(self).store_view(),
    {
        &mut self.watcher
    }

    /// The paths that the store says are watched. At start the driver arms
    /// the watcher on those that still exist.
    pub fn watched_paths(&self) -> (r: Result<Vec<String>, StoreError>)
        ensures
            match r {
                Ok(paths) => lists_watches(paths@, self.store_view().watch_keys()),
                Err(e) => e is DbError || (e is SystemError && exists|k: Seq<u8>|
                    self.store_view().watch_keys().contains(k) && !vstd::utf8::valid_utf8(k)),
            },
    {
        self.store.list_watches()
    }

    /// Arms the watcher on a stored watch if its path is still there; a
    /// path that is gone is skipped and stays in the store. Says whether
    /// the notifier has to be armed on the path.
    pub fn arm(&mut self, path: &str, present: bool) -> (armed: bool)
        ensures
            armed == (present && !old(self).watcher_view().roots().contains(path@)),
            final(self).watcher_view().roots() == if armed {
                old(self).watcher_view().roots().push(path@)
            } else {
                old(self).watcher_view().roots()
            },
            final(self).watcher_view().pending() == old(self).watcher_view().pending(),
            final(self).store_view() == old(self).store_view(),
    {
        if present {
            self.watcher.watch(path)
        } else {
            false
        }
    }

    /// Takes in one event of the notifier.
    pub fn notify(&mut self, kind: EventKind, paths: &Vec<String>) -> (queued: bool)
        ensures
            queued == (emitted(kind, texts(paths@)) is Some && old(self).watcher_view().pending().len() < QUEUE_CAPACITY && !old(self).watcher_view().is_shut()),
            final(self).watcher_view().pending() == if queued {
                old(self).watcher_view().pending().push(Ok(emitted(kind, texts(paths@))->0))
            } else {
                old(self).watcher_view().pending()
            },
            final(self).watcher_view().roots() == old(self).watcher_view().roots(),
            final(self).store_view() == old(self).store_view(),
    {
        self.watcher.notify(kind, paths)
    }

    /// The notifications owed for a local change of `path`; it fails when
    /// the database does, and else only on an entry that cannot be read.
    pub fn handle_local_change(&self, path: &str) -> (r: Result<Vec<Notification>, StoreError>)
        ensures
            r matches Ok(notes) ==> notes_owed(
                self.store_view().sync_map(),
                path@,
                notifications_view(notes@),
            ),
            r matches Err(e) ==> e is DbError || ((e is SystemError || e is SerializationError)
                && holds_unreadable(self.store_view().sync_map())),
    {
        match self.store.list_syncs() {
            Ok(syncs) => {
                let notes = notifications_for(&syncs, path);
                proof {
                    assert(lists_syncs(syncs@, self.store_view().sync_map()));
                }
                Ok(notes)
            },
            Err(e) => Err(e),
        }
    }

    /// One turn of the event loop: takes the oldest queued event and says
    /// what is to be done about it.
    pub fn run(&mut self) -> (turn: Turn)
        ensures
            final(self).store_view() == old(self).store_view(),
            final(self).watcher_view().roots() == old(self).watcher_view().roots(),
            old(self).watcher_view().pending().len() == 0 ==> final(self).watcher_view().pending()
                == old(self).watcher_view().pending(),
            old(self).watcher_view().pending().len() == 0 ==> if old(self).watcher_view().is_shut() {
                turn is Closed
            } else {
                turn is Idle
            },
            old(self).watcher_view().pending().len() > 0 ==> final(self).watcher_view().pending()
                == old(self).watcher_view().pending().skip(1),
            old(self).watcher_view().pending().len() > 0 ==> turn_answers(
                old(self).watcher_view().pending()[0],
                old(self).store_view().sync_map(),
                turn,
            ),
    {
        match self.watcher.next_event() {
            None => {
                if self.watcher.is_closed() {
                    Turn::Closed
                } else {
                    Turn::Idle
                }
            },
            Some(Ok(path)) => match self.handle_local_change(path.as_str()) {
                Ok(notes) => Turn::Notify(notes),
                Err(e) => Turn::StoreFailed(e),
            },
            Some(Err(message)) => Turn::WatchFailed(message),
        }
    }
}

/// The registrations `m` hold an entry that cannot be read: a key that is
/// no path, or a value that is no list of registrations.
pub open spec fn holds_unreadable(m: Map<Seq<u8>, Seq<u8>>) -> bool {
    exists|k: Seq<u8>| #[trigger]
        m.contains_key(k) && (!vstd::utf8::valid_utf8(k) || crate::records::dec_configs(m[k])
            is None)
}

} // verus!
