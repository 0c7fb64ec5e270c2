//! The connection registry and broadcast engine.
//!
//! The registry maps each live subscriber identity to the producer half of
//! that subscriber's outbound channel. A publish pass walks the whole
//! mapping under one `&mut` borrow — the critical section — delivering the
//! attributed line to every subscriber but the publisher and evicting every
//! entry whose delivery fails, which is conclusive proof of a dead consumer.
//!
//! The ghost history records, per identity ever registered, the events
//! enqueued to it, in order. Channels deliver in FIFO order, so the history
//! is also what the subscriber's streaming task sees.

use vstd::prelude::*;

use crate::channel::new_channel;
use crate::channel::send_event;
use crate::event::Event;
use crate::event::EventView;
use crate::ident::IdAllocator;
use crate::text::format_reply;
use crate::text::reply_text;

verus! {

struct Entry {
    id: u64,
    tx: tokio::sync::mpsc::UnboundedSender<Event>,
}

/// What a registry is mathematically: the set of live subscriber identities,
/// and, for every identity ever registered, the events enqueued to it.
#[verifier::ext_equal]
pub ghost struct RegistryView {
    pub live: Set<u64>,
    pub hist: Map<u64, Seq<EventView>>,
}

impl RegistryView {
    /// Every identity ever registered is below `bound`: what couples the
    /// registry to the allocator that feeds it.
    pub open spec fn fresh_bound(self, bound: u64) -> bool {
        forall|id: u64| self.hist.dom().contains(id) ==> id < bound
    }
}

/// Shape of a well-formed history: each subscriber's first event is its own
/// identity, sent exactly once; everything after it is a reply.
pub open spec fn hist_shape(h: Map<u64, Seq<EventView>>) -> bool {
    forall|id: u64| #[trigger] h.dom().contains(id) ==> {
        &&& h[id].len() >= 1
        &&& h[id][0] == EventView::Identity(id)
        &&& forall|k: int| 1 <= k < h[id].len() ==> h[id][k] is Reply
    }
}

/// How one publish pass changes the registry: `post` keeps a subset of
/// `pre`'s live identities, always keeping the publisher; every kept
/// identity other than the publisher has exactly the attributed line
/// appended to its history; the publisher, the evicted and the already-dead
/// see nothing new. Which identities are evicted is decided by the delivery
/// outcome alone, which no contract pins down.
pub open spec fn publish_step(
    pre: RegistryView,
    post: RegistryView,
    p: u64,
    body: Seq<char>,
) -> bool {
    &&& post.hist.dom() =~= pre.hist.dom()
    &&& forall|id: u64| #[trigger] post.live.contains(id) ==> pre.live.contains(id)
    &&& (pre.live.contains(p) ==> post.live.contains(p))
    &&& forall|id: u64|
        #[trigger] post.live.contains(id) && id != p ==> post.hist[id] =~= pre.hist[id].push(
            EventView::Reply(reply_text(p, body)),
        )
    &&& forall|id: u64|
        #[trigger] pre.hist.dom().contains(id) && !(post.live.contains(id) && id != p)
            ==> post.hist[id] =~= pre.hist[id]
}

/// A fresh subscription: the identity just issued, and the consumer half of
/// its outbound channel, from which the streaming task reads.
pub struct Subscription {
    pub id: u64,
    pub rx: tokio::sync::mpsc::UnboundedReceiver<Event>,
}

/// The live-subscriber mapping.
pub struct Registry {
    entries: Vec<Entry>,
    hist: Ghost<Map<u64, Seq<EventView>>>,
}

impl View for Registry {
    type V = RegistryView;

    closed spec fn view(&self) -> RegistryView {
        RegistryView { live: self.ids().to_set(), hist: self.hist@ }
    }
}

impl Registry {
    /// The identities currently registered, in entry order.
    pub closed spec fn ids(&self) -> Seq<u64> {
        self.entries@.map_values(|e: Entry| e.id)
    }

    /// At most one entry per identity.
    pub closed spec fn entries_unique(&self) -> bool {
        forall|j: int, k: int|
            0 <= j < k < self.ids().len() ==> self.ids()[j] != self.ids()[k]
    }

    /// Every live identity has a history.
    pub closed spec fn hist_covers(&self) -> bool {
        forall|k: int|
            0 <= k < self.ids().len() ==> self.hist@.dom().contains(#[trigger] self.ids()[k])
    }

    /// The registry's invariant: unique entries, each with a well-shaped
    /// history.
    pub open spec fn wf(&self) -> bool {
        &&& self.entries_unique()
        &&& self.hist_covers()
        &&& hist_shape(self@.hist)
    }

    /// An empty registry: nobody live, nobody ever registered.
    pub fn new() -> (r: Self)
        ensures
            r.wf(),
            r@.live =~= Set::<u64>::empty(),
            r@.hist =~= Map::<u64, Seq<EventView>>::empty(),
    {
        let r = Registry { entries: Vec::new(), hist: Ghost(Map::empty()) };
        proof {
            assert(r.ids() =~= Seq::<u64>::empty());
            assert(r.ids().to_set() =~= Set::<u64>::empty());
        }
        r
    }

    /// Whether `id` is currently registered.
    pub fn contains(&self, id: u64) -> (b: bool)
        ensures
            b == self@.live.contains(id),
    {
        let n = self.entries.len();
        let mut i: usize = 0;
        while i < n
            invariant
                0 <= i <= n,
                n == self.ids().len(),
                forall|k: int| 0 <= k < i ==> self.ids()[k] != id,
            decreases n - i,
        {
            if self.entries[i].id == id {
                assert(self.ids()[i as int] == id);
                return true;
            }
            i = i + 1;
        }
        proof {
            assert(!self.ids().contains(id));
        }
        false
    }

    /// How many subscribers are live.
    pub fn len(&self) -> (n: usize)
        requires
            self.wf(),
        ensures
            n == self@.live.len(),
    {
        proof {
            self.ids().unique_seq_to_set();
        }
        self.entries.len()
    }

    /// Makes one subscription: issues a fresh identity, creates the outbound
    /// channel, enqueues the `Identity` event as the channel's very first
    /// event, and registers the producer half. The identity was never
    /// registered before — not even by a subscriber evicted since. `None`
    /// only if the fresh channel refused the send, in which case nothing was
    /// registered.
    pub fn subscribe(&mut self, alloc: &mut IdAllocator) -> (r: Option<Subscription>)
        requires
            old(self).wf(),
            old(alloc).wf(),
            old(self)@.fresh_bound(old(alloc).spec_next()),
            old(alloc).spec_next() < u64::MAX,
        ensures
            final(self).wf(),
            final(alloc).wf(),
            final(self)@.fresh_bound(final(alloc).spec_next()),
            final(alloc).spec_next() == old(alloc).spec_next() + 1,
            match r {
                Some(sub) => {
                    &&& sub.id == old(alloc).spec_next()
                    &&& !old(self)@.hist.dom().contains(sub.id)
                    &&& final(self)@.live =~= old(self)@.live.insert(sub.id)
                    &&& final(self)@.hist =~= old(self)@.hist.insert(
                        sub.id,
                        seq![EventView::Identity(sub.id)],
                    )
                },
                None => final(self)@ =~= old(self)@,
            },
    {
        let id = alloc.next_id();
        let (tx, rx) = new_channel();
        let ok = send_event(&tx, Event::Identity(id));
        if !ok {
            return None;
        }
        proof {
            assert(!self.ids().contains(id));
        }
        let ghost pre_ids = self.ids();
        self.entries.push(Entry { id, tx });
        proof {
            assert(self.ids() =~= pre_ids.push(id));
        }
        self.hist = Ghost(self.hist@.insert(id, seq![EventView::Identity(id)]));
        proof {
            let s_new = self.ids();
            assert forall|x: u64| s_new.contains(x) implies (pre_ids.contains(x) || x == id) by {
                let j = choose|j: int| 0 <= j < s_new.len() && s_new[j] == x;
                if j < pre_ids.len() {
                    assert(pre_ids[j] == x);
                }
            }
            assert forall|x: u64| pre_ids.contains(x) implies s_new.contains(x) by {
                let j = choose|j: int| 0 <= j < pre_ids.len() && pre_ids[j] == x;
                assert(s_new[j] == x);
            }
            assert(s_new[pre_ids.len() as int] == id);
            assert(s_new.contains(id));
            assert(self.ids().to_set() =~= pre_ids.to_set().insert(id));
        }
        Some(Subscription { id, rx })
    }

    /// One publish pass, a single send-or-evict walk: delivers the
    /// attributed line `<User#P>: T` to every registered subscriber except
    /// the publisher, and removes every entry whose channel refused the
    /// send. The publisher's own entry is skipped and kept. Best-effort by
    /// design: no failure is surfaced to the publisher.
    pub fn publish(&mut self, publisher: u64, body: &str)
        requires
            old(self).wf(),
        ensures
            final(self).wf(),
            publish_step(old(self)@, final(self)@, publisher, body@),
    {
        let msg = format_reply(publisher, body);
        let ghost pre = self@;
        let ghost pre_ids = self.ids();
        let mut i: usize = 0;
        while i < self.entries.len()
            invariant
                0 <= i <= self.ids().len(),
                self.entries_unique(),
                self.hist_covers(),
                hist_shape(self.hist@),
                msg@ =~= reply_text(publisher, body@),
                self.hist@.dom() =~= pre.hist.dom(),
                forall|k: int|
                    0 <= k < self.ids().len() ==> pre_ids.contains(#[trigger] self.ids()[k]),
                (pre_ids.contains(publisher) ==> self.ids().contains(publisher)),
                forall|k: int|
                    0 <= k < i && self.ids()[k] != publisher ==> self.hist@[#[trigger] self.ids()[k]]
                        =~= pre.hist[self.ids()[k]].push(
                        EventView::Reply(reply_text(publisher, body@)),
                    ),
                forall|k: int|
                    i <= k < self.ids().len() ==> self.hist@[#[trigger] self.ids()[k]] =~= pre.hist[self.ids()[k]],
                pre.hist.dom().contains(publisher) ==> self.hist@[publisher] =~= pre.hist[publisher],
                forall|id: u64|
                    #[trigger] pre.hist.dom().contains(id) && !self.ids().contains(id)
                        ==> self.hist@[id] =~= pre.hist[id],
            decreases self.ids().len() - i,
        {
            let id = self.entries[i].id;
            assert(self.ids()[i as int] == id);
            if id == publisher {
                i = i + 1;
            } else {
                let ev = Event::Reply(msg.clone());
                let ok = send_event(&self.entries[i].tx, ev);
                if ok {
                    self.hist = Ghost(
                        self.hist@.insert(
                            id,
                            self.hist@[id].push(EventView::Reply(reply_text(publisher, body@))),
                        ),
                    );
                    i = i + 1;
                } else {
                    let ghost before = self.ids();
                    let _ = self.entries.swap_remove(i);
                    proof {
                        assert(self.ids() =~= before.update(i as int, before.last()).drop_last());
                        assert forall|k: int| 0 <= k < self.ids().len() implies pre_ids.contains(
                            #[trigger] self.ids()[k],
                        ) by {
                            if k == i {
                                assert(self.ids()[k] == before[before.len() - 1]);
                            } else {
                                assert(self.ids()[k] == before[k]);
                            }
                        }
                        if pre_ids.contains(publisher) {
                            let j = choose|j: int|
                                0 <= j < before.len() && before[j] == publisher;
                            if j < before.len() - 1 {
                                assert(self.ids()[j] == publisher);
                            } else {
                                assert(before[j] == before.last());
                                assert(j != i);
                                assert(self.ids()[i as int] == publisher);
                            }
                        }
                        assert forall|id2: u64|
                            #[trigger] pre.hist.dom().contains(id2) && !self.ids().contains(id2)
                                implies self.hist@[id2] =~= pre.hist[id2] by {
                            if before.contains(id2) {
                                let j = choose|j: int|
                                    0 <= j < before.len() && before[j] == id2;
                                if j == i {
                                    assert(id2 == id);
                                } else if j == before.len() - 1 {
                                    if i < before.len() - 1 {
                                        assert(self.ids()[i as int] == id2);
                                        assert(false);
                                    } else {
                                        assert(id2 == id);
                                    }
                                } else {
                                    assert(self.ids()[j] == id2);
                                    assert(false);
                                }
                            }
                        }
                    }
                }
            }
        }
        proof {
            assert forall|id: u64| #[trigger] self@.live.contains(id) implies pre.live.contains(
                id,
            ) by {
                let j = choose|j: int| 0 <= j < self.ids().len() && self.ids()[j] == id;
                assert(pre_ids.contains(id));
            }
            assert forall|id: u64| #[trigger] self@.live.contains(id) && id != publisher implies
                self@.hist[id] =~= pre.hist[id].push(
                EventView::Reply(reply_text(publisher, body@)),
            ) by {
                let j = choose|j: int| 0 <= j < self.ids().len() && self.ids()[j] == id;
            }
            assert forall|id: u64|
                #[trigger] pre.hist.dom().contains(id) && !(self@.live.contains(id) && id
                    != publisher) implies self@.hist[id] =~= pre.hist[id] by {
                if self.ids().contains(id) {
                    assert(id == publisher);
                } else {
                }
            }
        }
    }
}

/// Law: every subscriber ever registered was announced exactly once — the
/// first event on its channel is `Identity` carrying its own identity, and
/// no later event is an identity announcement.
pub proof fn lemma_identity_first(v: RegistryView, id: u64)
    requires
        hist_shape(v.hist),
        v.hist.dom().contains(id),
    ensures
        v.hist[id].len() >= 1,
        v.hist[id][0] == EventView::Identity(id),
        forall|k: int| 1 <= k < v.hist[id].len() ==> !(#[trigger] v.hist[id][k] is Identity),
{
}

/// Law: a subscriber live across a publish pass, other than the publisher,
/// sees exactly one new event — the attributed line, appended after
/// everything it had; nothing is duplicated, dropped or reordered for it.
/// The publisher itself sees nothing new.
pub proof fn lemma_publish_delivery(
    pre: RegistryView,
    post: RegistryView,
    p: u64,
    body: Seq<char>,
    id: u64,
)
    requires
        publish_step(pre, post, p, body),
        post.live.contains(id),
        id != p,
        pre.hist.dom().contains(id),
        pre.hist.dom().contains(p),
    ensures
        post.hist[id].len() == pre.hist[id].len() + 1,
        post.hist[id].last() == EventView::Reply(reply_text(p, body)),
        post.hist[id].subrange(0, pre.hist[id].len() as int) =~= pre.hist[id],
        post.hist[p] =~= pre.hist[p],
{
    assert(post.hist[id] =~= pre.hist[id].push(EventView::Reply(reply_text(p, body))));
}

/// Law: a publish pass never adds a subscriber. An identity absent before
/// the pass — dead, evicted earlier, or never registered — is absent after
/// it and receives nothing: evicting the already-absent is a no-op, never an
/// error.
pub proof fn lemma_publish_no_resurrection(
    pre: RegistryView,
    post: RegistryView,
    p: u64,
    body: Seq<char>,
    id: u64,
)
    requires
        publish_step(pre, post, p, body),
        !pre.live.contains(id),
    ensures
        !post.live.contains(id),
        pre.hist.dom().contains(id) ==> post.hist[id] =~= pre.hist[id],
{
}

/// Law: publishing with nobody else registered — only the publisher, or
/// nobody at all — succeeds and changes nothing observable.
pub proof fn lemma_publish_solo(pre: RegistryView, post: RegistryView, p: u64, body: Seq<char>)
    requires
        publish_step(pre, post, p, body),
        forall|id: u64| #[trigger] pre.live.contains(id) ==> id == p,
    ensures
        post.live =~= pre.live,
        post.hist =~= pre.hist,
{
    assert forall|id: u64| #[trigger] pre.hist.dom().contains(id) implies post.hist[id]
        =~= pre.hist[id] by {
        if post.live.contains(id) && id != p {
            assert(pre.live.contains(id));
            assert(false);
        }
    }
    assert(post.hist =~= pre.hist);
    assert forall|id: u64| #[trigger] pre.live.contains(id) implies post.live.contains(id) by {
        assert(id == p);
    }
}

} // verus!
