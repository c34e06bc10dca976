//! The path watcher's bookkeeping: which roots are watched, and the
//! bounded queue between the notifier's callback and the event loop. The
//! callback never waits: when the queue is full the event is dropped and
//! counted.

use vstd::prelude::*;

verus! {

/// Events the queue holds at most.
pub const QUEUE_CAPACITY: usize = 100;

/// What happened to the paths of an event.
#[derive(Debug, Clone, Copy, PartialEq, Eq, Structural)]
pub enum EventKind {
    Create,
    Modify,
    Remove,
    /// A path was read or opened; nothing changed.
    Access,
    /// The notifier could not say.
    Other,
}

/// A queued event: the path that changed, or the notifier's error.
pub type WatchEvent = Result<String, String>;

pub type WatchEventView = Result<Seq<char>, Seq<char>>;

pub open spec fn event_view(e: WatchEvent) -> WatchEventView {
    match e {
        Ok(path) => Ok(path@),
        Err(message) => Err(message@),
    }
}

pub open spec fn texts(v: Seq<String>) -> Seq<Seq<char>> {
    v.map_values(|s: String| s@)
}

/// The path that an event of this kind on these paths emits: the first
/// path of a create, modify or remove event, and nothing otherwise.
pub open spec fn emitted(kind: EventKind, paths: Seq<Seq<char>>) -> Option<Seq<char>> {
    if (kind == EventKind::Create || kind == EventKind::Modify || kind == EventKind::Remove)
        && paths.len() > 0 {
        Some(paths[0])
    } else {
        None
    }
}

/// The text that a notifier error is queued as.
pub open spec fn error_text(detail: Seq<char>) -> Seq<char> {
    "Watch error: "@ + detail
}

/// The queue after one more event is offered: the event is taken while
/// there is room and the watcher is open; else the queue stays as it is.
pub open spec fn queue_after(pending: Seq<WatchEventView>, shut: bool, event: WatchEventView) -> Seq<
    WatchEventView,
> {
    if pending.len() < QUEUE_CAPACITY && !shut {
        pending.push(event)
    } else {
        pending
    }
}

/// The count of dropped events after one more event is offered: it rises
/// by one when the event finds an open watcher's queue full, up to the
/// largest count there is.
pub open spec fn dropped_after(pending: Seq<WatchEventView>, shut: bool, dropped: nat) -> nat {
    if pending.len() < QUEUE_CAPACITY || shut || dropped == u64::MAX {
        dropped
    } else {
        dropped + 1
    }
}

/// The queue after `events` were offered one after the other while
/// nothing was taken out.
pub open spec fn queue_after_all(
    pending: Seq<WatchEventView>,
    shut: bool,
    events: Seq<WatchEventView>,
) -> Seq<WatchEventView>
    decreases events.len(),
{
    if events.len() == 0 {
        pending
    } else {
        queue_after(queue_after_all(pending, shut, events.drop_last()), shut, events.last())
    }
}

/// The count of dropped events after `events` were offered one after the
/// other while nothing was taken out.
pub open spec fn dropped_after_all(
    pending: Seq<WatchEventView>,
    shut: bool,
    dropped: nat,
    events: Seq<WatchEventView>,
) -> nat
    decreases events.len(),
{
    if events.len() == 0 {
        dropped
    } else {
        dropped_after(
            queue_after_all(pending, shut, events.drop_last()),
            shut,
            dropped_after_all(pending, shut, dropped, events.drop_last()),
        )
    }
}

/// How many of `n` events an empty queue takes.
pub open spec fn kept_of(n: nat) -> nat {
    if n <= QUEUE_CAPACITY {
        n
    } else {
        QUEUE_CAPACITY as nat
    }
}

/// Overflow drops and counts: when events are fed into a new watcher while
/// no consumer runs, the queue holds the first hundred of them in the
/// order they came, every later one is dropped, and the count of dropped
/// events is the number of those.
pub proof fn law_overflow_keeps_the_first(events: Seq<WatchEventView>)
    requires
        events.len() <= u64::MAX,
    ensures
        queue_after_all(Seq::<WatchEventView>::empty(), false, events) == events.take(
            kept_of(events.len()) as int,
        ),
        dropped_after_all(Seq::<WatchEventView>::empty(), false, 0, events) == events.len()
            - kept_of(events.len()),
    decreases events.len(),
{
    let none = Seq::<WatchEventView>::empty();
    if events.len() == 0 {
        assert(events.take(0) =~= none);
    } else {
        let front = events.drop_last();
        law_overflow_keeps_the_first(front);
        let kept = kept_of(front.len());
        assert(front.take(kept as int) =~= events.take(kept as int));
        if front.len() < QUEUE_CAPACITY {
            assert(events.take(kept as int).push(events.last()) =~= events.take(
                kept_of(events.len()) as int,
            ));
        }
    }
}

pub struct FileWatcher {
    roots: Vec<String>,
    queue: Vec<WatchEvent>,
    dropped: u64,
    closed: bool,
}

impl FileWatcher {
    /// The queue holds no more than its capacity; every watcher made by
    /// `new` keeps to that.
    pub closed spec fn within_capacity(&self) -> bool {
        self.queue@.len() <= QUEUE_CAPACITY
    }

    /// The watched roots, in the order they were first watched.
    pub closed spec fn roots(&self) -> Seq<Seq<char>> {
        texts(self.roots@)
    }

    /// The queued events, oldest first.
    pub closed spec fn pending(&self) -> Seq<WatchEventView> {
        self.queue@.map_values(|e: WatchEvent| event_view(e))
    }

    /// How many events were dropped because the queue was full.
    pub closed spec fn dropped_count(&self) -> nat {
        self.dropped as nat
    }

    /// Whether the watcher has shut down.
    pub closed spec fn is_shut(&self) -> bool {
        self.closed
    }

    /// A watcher with no roots and nothing queued.
    pub fn new() -> (w: FileWatcher)
        ensures
            w.roots().len() == 0,
            w.pending().len() == 0,
            w.dropped_count() == 0,
            !w.is_shut(),
            w.within_capacity(),
    {
        FileWatcher { roots: Vec::new(), queue: Vec::new(), dropped: 0, closed: false }
    }

    fn root_position(&self, path: &str) -> (r: Option<usize>)
        ensures
            match r {
                Some(i) => i < self.roots().len() && self.roots()[i as int] == path@ && forall|
                    j: int,
                | 0 <= j < i ==> self.roots()[j] != path@,
                None => !self.roots().contains(path@),
            },
    {
        let want = path.to_owned();
        let mut i: usize = 0;
        while i < self.roots.len()
            invariant
                i <= self.roots@.len(),
                want@ == path@,
                forall|j: int| 0 <= j < i ==> self.roots()[j] != path@,
            decreases self.roots@.len() - i,
        {
            if self.roots[i] == want {
                return Some(i);
            }
            i = i + 1;
        }
        None
    }

    /// Starts watching `path`, and says whether it was not watched yet, in
    /// which case the notifier has to be armed on it.
    pub fn watch(&mut self, path: &str) -> (armed: bool)
        ensures
            old(self).within_capacity() ==> final(self).within_capacity(),
            armed == !old(self).roots().contains(path@),
            final(self).roots() == if armed {
                old(self).roots().push(path@)
            } else {
                old(self).roots()
            },
            final(self).pending() == old(self).pending(),
            final(self).dropped_count() == old(self).dropped_count(),
            final(self).is_shut() == old(self).is_shut(),
    {
        match self.root_position(path) {
            Some(_) => false,
            None => {
                self.roots.push(path.to_owned());
                proof {
                    assert(self.roots() =~= old(self).roots().push(path@));
                }
                true
            },
        }
    }

    /// Stops watching `path`, and says whether it was watched.
    pub fn unwatch(&mut self, path: &str) -> (removed: bool)
        ensures
            old(self).within_capacity() ==> final(self).within_capacity(),
            removed == old(self).roots().contains(path@),
            final(self).roots() == old(self).roots().remove_value(path@),
            final(self).pending() == old(self).pending(),
            final(self).dropped_count() == old(self).dropped_count(),
            final(self).is_shut() == old(self).is_shut(),
    {
        proof {
            old(self).roots().index_of_first_ensures(path@);
        }
        match self.root_position(path) {
            Some(i) => {
                self.roots.remove(i);
                proof {
                    assert(old(self).roots().index_of_first(path@) == Some(i as int));
                    assert(self.roots() =~= old(self).roots().remove(i as int));
                }
                true
            },
            None => false,
        }
    }

    /// Whether `path` is a watched root.
    pub fn is_watching(&self, path: &str) -> (r: bool)
        ensures
            r == self.roots().contains(path@),
    {
        self.root_position(path).is_some()
    }

    /// Takes in one event as it is: it is queued while there is room and
    /// the watcher is open, and dropped and counted when the queue is
    /// full. The call never waits.
    pub fn offer(&mut self, event: WatchEvent) -> (queued: bool)
        ensures
            old(self).within_capacity() ==> final(self).within_capacity(),
            final(self).pending() == queue_after(
                old(self).pending(),
                old(self).is_shut(),
                event_view(event),
            ),
            final(self).dropped_count() == dropped_after(
                old(self).pending(),
                old(self).is_shut(),
                old(self).dropped_count(),
            ),
            queued == (old(self).pending().len() < QUEUE_CAPACITY && !old(self).is_shut()),
            final(self).pending() == if queued {
                old(self).pending().push(event_view(event))
            } else {
                old(self).pending()
            },
            final(self).dropped_count() == if queued || old(self).is_shut()
                || old(self).dropped_count() == u64::MAX {
                old(self).dropped_count()
            } else {
                old(self).dropped_count() + 1
            },
            final(self).roots() == old(self).roots(),
            final(self).is_shut() == old(self).is_shut(),
    {
        if self.closed {
            false
        } else if self.queue.len() < QUEUE_CAPACITY {
            self.queue.push(event);
            proof {
                assert(self.pending() =~= old(self).pending().push(event_view(event)));
            }
            true
        } else {
            if self.dropped < u64::MAX {
                self.dropped = self.dropped + 1;
            }
            false
        }
    }

    /// Takes in one event of the notifier. A create, modify or remove
    /// event queues its first path; when the queue is full the event is
    /// dropped and counted. Other events, and events without a path,
    /// leave the watcher as it is.
    pub fn notify(&mut self, kind: EventKind, paths: &Vec<String>) -> (queued: bool)
        ensures
            old(self).within_capacity() ==> final(self).within_capacity(),
            emitted(kind, texts(paths@)) matches Some(path) ==> final(self).pending()
                == queue_after(old(self).pending(), old(self).is_shut(), Ok(path)) && final(self).dropped_count() == dropped_after(
                old(self).pending(),
                old(self).is_shut(),
                old(self).dropped_count(),
            ),
            queued == (emitted(kind, texts(paths@)) is Some && old(self).pending().len()
                < QUEUE_CAPACITY && !old(self).is_shut()),
            final(self).pending() == if queued {
                old(self).pending().push(Ok(emitted(kind, texts(paths@))->0))
            } else {
                old(self).pending()
            },
            final(self).dropped_count() == if emitted(kind, texts(paths@)) is None || queued
                || old(self).is_shut() || old(self).dropped_count() == u64::MAX {
                old(self).dropped_count()
            } else {
                old(self).dropped_count() + 1
            },
            final(self).roots() == old(self).roots(),
            final(self).is_shut() == old(self).is_shut(),
    {
        let changes = match kind {
            EventKind::Create => true,
            EventKind::Modify => true,
            EventKind::Remove => true,
            EventKind::Access => false,
            EventKind::Other => false,
        };
        if changes && paths.len() > 0 {
            self.offer(Ok(paths[0].clone()))
        } else {
            false
        }
    }

    /// Takes in an error of the notifier, which is queued like an event.
    pub fn report_error(&mut self, detail: &str) -> (queued: bool)
        ensures
            old(self).within_capacity() ==> final(self).within_capacity(),
            queued == (old(self).pending().len() < QUEUE_CAPACITY && !old(self).is_shut()),
            final(self).pending() == if queued {
                old(self).pending().push(Err(error_text(detail@)))
            } else {
                old(self).pending()
            },
            final(self).dropped_count() == if queued || old(self).is_shut()
                || old(self).dropped_count() == u64::MAX {
                old(self).dropped_count()
            } else {
                old(self).dropped_count() + 1
            },
            final(self).roots() == old(self).roots(),
            final(self).is_shut() == old(self).is_shut(),
    {
        let mut message = "Watch error: ".to_owned();
        message.append(detail);
        self.offer(Err(message))
    }

    /// The oldest queued event, or nothing when none is queued.
    pub fn next_event(&mut self) -> (r: Option<WatchEvent>)
        ensures
            old(self).within_capacity() ==> final(self).within_capacity(),
            match r {
                Some(event) => old(self).pending().len() > 0 && event_view(event)
                    == old(self).pending()[0] && final(self).pending()
                    == old(self).pending().skip(1),
                None => old(self).pending().len() == 0 && final(self).pending()
                    == old(self).pending(),
            },
            final(self).roots() == old(self).roots(),
            final(self).dropped_count() == old(self).dropped_count(),
            final(self).is_shut() == old(self).is_shut(),
    {
        if self.queue.len() == 0 {
            None
        } else {
            let event = self.queue.remove(0);
            proof {
                assert(self.pending() =~= old(self).pending().skip(1));
            }
            Some(event)
        }
    }

    /// Shuts the watcher down: nothing more is queued.
    pub fn close(&mut self)
        ensures
            old(self).within_capacity() ==> final(self).within_capacity(),
            final(self).is_shut(),
            final(self).pending() == old(self).pending(),
            final(self).roots() == old(self).roots(),
            final(self).dropped_count() == old(self).dropped_count(),
    {
        self.closed = true;
    }

    /// Whether the watcher has shut down.
    pub fn is_closed(&self) -> (r: bool)
        ensures
            r == self.is_shut(),
    {
        self.closed
    }

    /// How many events were dropped because the queue was full.
    pub fn dropped(&self) -> (r: u64)
        ensures
            r == self.dropped_count(),
    {
        self.dropped
    }

    /// How many events are queued.
    pub fn queued(&self) -> (r: usize)
        ensures
            r == self.pending().len(),
            self.within_capacity() ==> r <= QUEUE_CAPACITY,
    {
        self.queue.len()
    }
}

} // verus!
