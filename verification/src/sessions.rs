//! The session broadcaster: fan-out of server events to every connected
//! session over bounded per-session queues.
//!
//! A slow session never blocks the publisher or its peers: when a
//! session's queue is full its oldest event is dropped to make room,
//! and delivery to the others goes on regardless.

use vstd::prelude::*;

use crate::protocol::{clone_message, msg_eq, WebSocketMessage};

verus! {

/// One connected session's outbound queue.
pub struct SessionQueue {
    /// The session's identifier, unique across the broadcaster.
    pub id: u64,
    /// Events waiting to be written to the session's socket, oldest
    /// first.
    pub queue: Vec<WebSocketMessage>,
    /// Most events the queue may hold; on overflow the oldest is
    /// dropped.
    pub cap: usize,
}

impl SessionQueue {
    /// A session queue is well-formed when its bound is positive and
    /// respected.
    pub open spec fn wf(&self) -> bool {
        &&& self.cap >= 1
        &&& self.queue@.len() <= self.cap
    }
}

/// What one `publish` call does to one session: identity and bound are
/// kept, the event lands at the tail, and when the queue was full the
/// oldest event made room for it.
pub open spec fn session_received(
    oq: SessionQueue,
    nq: SessionQueue,
    event: WebSocketMessage,
) -> bool {
    &&& nq.id == oq.id
    &&& nq.cap == oq.cap
    &&& nq.queue@.len() as int == (if oq.queue@.len() < oq.cap {
        oq.queue@.len() as int + 1
    } else {
        oq.queue@.len() as int
    })
    &&& nq.queue@.drop_last() == (if oq.queue@.len() < oq.cap {
        oq.queue@
    } else {
        oq.queue@.drop_first()
    })
    &&& msg_eq(nq.queue@.last(), event)
}

/// The fan-out table of connected sessions.
pub struct SessionBroadcaster {
    pub sessions: Vec<SessionQueue>,
}

impl SessionBroadcaster {
    /// Every queue well-formed, every session identifier unique.
    pub open spec fn wf(&self) -> bool {
        &&& forall|i: int| 0 <= i < self.sessions@.len() ==> (#[trigger] self.sessions@[i]).wf()
        &&& forall|i: int, j: int|
            0 <= i < j < self.sessions@.len() ==> self.sessions@[i].id != self.sessions@[j].id
    }

    /// Whether a session with this identifier is connected.
    pub open spec fn has_session(&self, id: u64) -> bool {
        exists|i: int| 0 <= i < self.sessions@.len() && self.sessions@[i].id == id
    }

    /// A broadcaster with no sessions.
    pub fn new() -> (r: SessionBroadcaster)
        ensures
            r.wf(),
            r.sessions@.len() == 0,
    {
        SessionBroadcaster { sessions: Vec::new() }
    }

    /// How many sessions are connected.
    pub fn len(&self) -> (n: usize)
        ensures
            n == self.sessions@.len(),
    {
        self.sessions.len()
    }

    /// The index of the session with this identifier, or `None`.
    fn find_session(&self, id: u64) -> (r: Option<usize>)
        ensures
            match r {
                Some(i) => i < self.sessions@.len() && self.sessions@[i as int].id == id,
                None => !self.has_session(id),
            },
    {
        let n = self.sessions.len();
        let mut i: usize = 0;
        while i < n
            invariant
                i <= n,
                n == self.sessions@.len(),
                forall|j: int| 0 <= j < i ==> self.sessions@[j].id != id,
            decreases n - i,
        {
            if self.sessions[i].id == id {
                return Some(i);
            }
            i = i + 1;
        }
        None
    }

    /// Connects a session with an empty queue bounded by `cap`.
    /// Connecting an identifier already present changes nothing.
    pub fn connect(&mut self, id: u64, cap: usize) -> (added: bool)
        requires
            old(self).wf(),
            cap >= 1,
        ensures
            final(self).wf(),
            final(self).has_session(id),
            added == !old(self).has_session(id),
            added ==> {
                &&& final(self).sessions@.len() == old(self).sessions@.len() + 1
                &&& final(self).sessions@.drop_last() == old(self).sessions@
                &&& final(self).sessions@.last().id == id
                &&& final(self).sessions@.last().cap == cap
                &&& final(self).sessions@.last().queue@.len() == 0
            },
            !added ==> *final(self) == *old(self),
    {
        match self.find_session(id) {
            Some(_) => {
                proof {
                    assert(self.has_session(id));
                }
                false
            },
            None => {
                let q = SessionQueue { id, queue: Vec::new(), cap };
                let ghost old_s = self.sessions@;
                self.sessions.push(q);
                proof {
                    let s = self.sessions@;
                    let n = old_s.len() as int;
                    assert(forall|j: int| 0 <= j < n ==> s[j] == old_s[j]);
                    assert(s[n].id == id);
                    assert(self.wf());
                    assert(self.has_session(id));
                }
                true
            },
        }
    }

    /// Disconnects the session with this identifier, if connected;
    /// other sessions are untouched.
    pub fn disconnect(&mut self, id: u64) -> (removed: bool)
        requires
            old(self).wf(),
        ensures
            final(self).wf(),
            !final(self).has_session(id),
            removed == old(self).has_session(id),
            !removed ==> *final(self) == *old(self),
            forall|q: u64| q != id ==> final(self).has_session(q) == old(self).has_session(q),
    {
        match self.find_session(id) {
            Some(i) => {
                let ghost old_s = self.sessions@;
                let _ = self.sessions.remove(i);
                proof {
                    old_s.remove_ensures(i as int);
                    let s = self.sessions@;
                    assert(forall|j: int| 0 <= j < i ==> s[j] == old_s[j]);
                    assert(forall|j: int| i <= j < s.len() ==> s[j] == old_s[j + 1]);
                    assert(self.wf());
                    assert forall|j: int| 0 <= j < s.len() implies s[j].id != id by {
                        if j < i {
                            assert(old_s[j].id != old_s[i as int].id);
                        } else {
                            assert(old_s[j + 1].id != old_s[i as int].id);
                        }
                    }
                    assert(!self.has_session(id));
                    assert(old(self).has_session(id));
                    assert forall|q: u64| q != id implies self.has_session(q) == old(
                        self,
                    ).has_session(q) by {
                        if old(self).has_session(q) {
                            let k = choose|k: int| 0 <= k < old_s.len() && old_s[k].id == q;
                            assert(k != i);
                            let k2: int = if k < i {
                                k
                            } else {
                                k - 1
                            };
                            assert(s[k2].id == q);
                        }
                        if self.has_session(q) {
                            let k = choose|k: int| 0 <= k < s.len() && s[k].id == q;
                            if k < i {
                                assert(old_s[k].id == q);
                            } else {
                                assert(old_s[k + 1].id == q);
                            }
                        }
                    }
                }
                true
            },
            None => false,
        }
    }

    /// Delivers one event to every connected session: each session's
    /// queue receives an equivalent copy at its tail, dropping its own
    /// oldest event when full. No session's backlog affects another's
    /// delivery, and none blocks the publisher.
    pub fn publish(&mut self, event: &WebSocketMessage)
        requires
            old(self).wf(),
        ensures
            final(self).wf(),
            final(self).sessions@.len() == old(self).sessions@.len(),
            forall|s: int|
                0 <= s < old(self).sessions@.len() ==> session_received(
                    old(self).sessions@[s],
                    #[trigger] final(self).sessions@[s],
                    *event,
                ),
    {
        let n = self.sessions.len();
        let mut i: usize = 0;
        while i < n
            invariant
                i <= n,
                n == self.sessions@.len() == old(self).sessions@.len(),
                forall|s: int|
                    i <= s < n ==> #[trigger] self.sessions@[s] == old(self).sessions@[s],
                forall|s: int|
                    0 <= s < i ==> session_received(
                        old(self).sessions@[s],
                        #[trigger] self.sessions@[s],
                        *event,
                    ),
                old(self).wf(),
                self.wf(),
            decreases n - i,
        {
            let copy = clone_message(event);
            let ghost pre = self.sessions@;
            let ghost oq = self.sessions@[i as int];
            let full = self.sessions[i].queue.len() >= self.sessions[i].cap;
            if full {
                let _ = self.sessions[i].queue.remove(0);
            }
            self.sessions[i].queue.push(copy);
            proof {
                let s = self.sessions@;
                let nq = s[i as int];
                assert(forall|t: int| 0 <= t < n && t != i ==> s[t] == pre[t]);
                assert(nq.id == oq.id && nq.cap == oq.cap);
                if oq.queue@.len() < oq.cap {
                    assert(nq.queue@ == oq.queue@.push(copy));
                    assert(nq.queue@.drop_last() =~= oq.queue@);
                } else {
                    assert(oq.queue@.len() == oq.cap);
                    assert(nq.queue@ == oq.queue@.remove(0).push(copy));
                    assert(oq.queue@.remove(0) =~= oq.queue@.drop_first());
                    assert(nq.queue@.drop_last() =~= oq.queue@.drop_first());
                }
                assert(nq.queue@.last() == copy);
                assert(session_received(oq, nq, *event));
                assert(nq.wf());
                assert(self.wf());
            }
            i = i + 1;
        }
    }
}

/// One published event reaches every session alike: after a publish,
/// any two sessions' newest queued events are equivalent, and for a
/// progress event they are equal — every session sees identical stats.
pub proof fn lemma_publish_uniform(
    pre: SessionBroadcaster,
    post: SessionBroadcaster,
    event: WebSocketMessage,
    a: int,
    b: int,
)
    requires
        post.sessions@.len() == pre.sessions@.len(),
        forall|s: int|
            0 <= s < pre.sessions@.len() ==> session_received(
                pre.sessions@[s],
                #[trigger] post.sessions@[s],
                event,
            ),
        0 <= a < pre.sessions@.len(),
        0 <= b < pre.sessions@.len(),
    ensures
        msg_eq(post.sessions@[a].queue@.last(), post.sessions@[b].queue@.last()),
        (event matches WebSocketMessage::IndexingProgress { stats }) ==> post.sessions@[a].queue@
            .last() == post.sessions@[b].queue@.last(),
{
    let ea = post.sessions@[a].queue@.last();
    let eb = post.sessions@[b].queue@.last();
    assert(msg_eq(ea, event));
    assert(msg_eq(eb, event));
    match event {
        WebSocketMessage::SearchResult(r) => {
            assert(msg_eq(ea, eb));
        },
        _ => {
            assert(ea == event);
            assert(eb == event);
        },
    }
}

} // verus!
