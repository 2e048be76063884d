//! The dispatcher: a registry of subscriptions keyed by message kind, the
//! fan-out of each decoded frame to them, and the one-slot cache behind
//! waiting for a kind's first message.
use vstd::prelude::*;

use std::sync::Arc;

use async_channel::{Receiver, Sender};

use crate::irc::IrcMessage;
use crate::messages::{kind_of, kind_of_command, parsed_from, readable, EventKind, Message, MessageError};

verus! {

/// Why a frame could not be handed out.
#[derive(Debug, Clone, PartialEq, Eq)]
pub enum DispatchError {
    /// The frame does not make the message its command selects.
    InvalidMessage(MessageError),
    /// Any other failure, described.
    Custom(String),
}

impl DispatchError {
    /// A failure described by `err`.
    pub fn custom(err: String) -> (r: DispatchError)
        ensures
            r == DispatchError::Custom(err),
    {
        DispatchError::Custom(err)
    }
}

/// A subscription's number, unique within its registry.
#[derive(Debug, Clone, Copy, PartialEq, Eq, PartialOrd, Ord, Hash, Structural)]
pub struct Id(pub usize);

/// What the registry knows of a subscription: its number, its kind, and
/// whether it is internal (exempt from clearing by users).
pub struct SubView {
    pub id: usize,
    pub kind: EventKind,
    pub private: bool,
    /// Every message handed to it, in order.
    pub handed: Seq<Arc<Message>>,
}

struct Subscriber {
    id: Id,
    kind: EventKind,
    private: bool,
    sink: Sender<Arc<Message>>,
}


/// A subscription matches when it is of kind `kind` (any kind, with
/// `any_kind`) and is not internal (or may be, with `with_private`).
pub open spec fn matches(v: SubView, kind: EventKind, any_kind: bool, with_private: bool) -> bool {
    (any_kind || v.kind == kind) && (with_private || !v.private)
}

/// The subscriptions of `s` for which `matches` is `want`, in order.
pub open spec fn select(s: Seq<SubView>, kind: EventKind, any_kind: bool, with_private: bool, want: bool) -> Seq<SubView>
    decreases s.len(),
{
    if s.len() == 0 {
        s
    } else if matches(s.last(), kind, any_kind, with_private) == want {
        select(s.drop_last(), kind, any_kind, with_private, want).push(s.last())
    } else {
        select(s.drop_last(), kind, any_kind, with_private, want)
    }
}

/// The subscriptions of kind `k`, internal ones included.
pub open spec fn of_kind(s: Seq<SubView>, k: EventKind) -> Seq<SubView> {
    select(s, k, false, true, true)
}

/// The user (not internal) subscriptions of kind `k`.
pub open spec fn user_of_kind(s: Seq<SubView>, k: EventKind) -> Seq<SubView> {
    select(s, k, false, false, true)
}

/// All user (not internal) subscriptions.
pub open spec fn user_subs(s: Seq<SubView>) -> Seq<SubView> {
    select(s, EventKind::All, true, false, true)
}

/// All internal subscriptions.
pub open spec fn private_subs(s: Seq<SubView>) -> Seq<SubView> {
    select(s, EventKind::All, true, false, false)
}

proof fn lemma_select_split(s: Seq<SubView>, kind: EventKind, any_kind: bool, with_private: bool)
    ensures
        select(s, kind, any_kind, with_private, true).len() + select(s, kind, any_kind, with_private, false).len() == s.len(),
    decreases s.len(),
{
    if s.len() > 0 {
        lemma_select_split(s.drop_last(), kind, any_kind, with_private);
    }
}

/// `v` after being handed `msg`.
pub open spec fn handed(v: SubView, msg: Arc<Message>) -> SubView {
    SubView { handed: v.handed.push(msg), ..v }
}

/// What is left after sending `msg` to the subscriptions of kind `k` with
/// the outcomes `outs`, one per such subscription in order: those whose send
/// failed are gone, and the others have been handed `msg`.
pub open spec fn prune(s: Seq<SubView>, k: EventKind, outs: Seq<bool>, msg: Arc<Message>) -> Seq<SubView>
    decreases s.len(),
{
    if s.len() == 0 {
        s
    } else if s.last().kind == k {
        if outs.len() > 0 && outs.last() {
            prune(s.drop_last(), k, outs.drop_last(), msg).push(handed(s.last(), msg))
        } else {
            prune(s.drop_last(), k, outs.drop_last(), msg)
        }
    } else {
        prune(s.drop_last(), k, outs, msg).push(s.last())
    }
}

/// A registry of subscriptions, each a channel to one subscriber.
pub struct EventMap {
    subs: Vec<Subscriber>,
    next: usize,
    logs: Ghost<Seq<Seq<Arc<Message>>>>,
}

impl View for EventMap {
    type V = Seq<SubView>;

    closed spec fn view(&self) -> Seq<SubView> {
        self.subs@.map(
            |i: int, s: Subscriber| SubView { id: s.id.0, kind: s.kind, private: s.private, handed: self.logs@[i] },
        )
    }
}

impl EventMap {
    /// The number the next subscription gets.
    pub closed spec fn next_id(&self) -> nat {
        self.next as nat
    }

    /// The registry is consistent: every number in use is below `next_id`.
    pub closed spec fn wf(&self) -> bool {
        &&& self.logs@.len() == self.subs@.len()
        &&& forall|i: int| 0 <= i < self.subs@.len() ==> (#[trigger] self.subs@[i]).id.0 < self.next
    }

    /// The number the next subscription gets.
    pub fn next_number(&self) -> (r: usize)
        ensures
            r == self.next_id(),
    {
        self.next
    }

    /// An empty registry.
    pub fn new() -> (r: EventMap)
        ensures
            r@ == Seq::<SubView>::empty(),
            r.next_id() == 0,
            r.wf(),
    {
        let r = EventMap { subs: Vec::new(), next: 0, logs: Ghost(Seq::empty()) };
        assert(r@ =~= Seq::<SubView>::empty());
        r
    }

    /// Adds a subscription of kind `kind` and returns its receiving end. Its
    /// number differs from every number in use.
    pub fn register(&mut self, kind: EventKind, private: bool) -> (r: Receiver<Arc<Message>>)
        requires
            old(self).wf(),
            old(self).next_id() < usize::MAX,
        ensures
            final(self).wf(),
            final(self)@ == old(self)@.push(SubView { id: old(self).next_id() as usize, kind, private, handed: Seq::empty() }),
            forall|i: int| 0 <= i < old(self)@.len() ==> (#[trigger] old(self)@[i]).id != old(self).next_id(),
            final(self).next_id() == old(self).next_id() + 1,
    {
        let (tx, rx) = async_channel::unbounded::<Arc<Message>>();
        self.subs.push(Subscriber { id: Id(self.next), kind, private, sink: tx });
        self.logs = Ghost(self.logs@.push(Seq::empty()));
        self.next = self.next + 1;
        assert(self@ =~= old(self)@.push(SubView { id: old(self).next_id() as usize, kind, private, handed: Seq::empty() }));
        assert forall|i: int| 0 <= i < self.subs@.len() implies (#[trigger] self.subs@[i]).id.0 < self.next by {
            if i < old(self).subs@.len() {
                assert(self.subs@[i] == old(self).subs@[i]);
            }
        }
        rx
    }

    /// The number of subscriptions of kind `kind`, internal ones included.
    pub fn active(&self, kind: EventKind) -> (r: usize)
        ensures
            r == of_kind(self@, kind).len(),
    {
        self.count_where(kind, false, true)
    }

    /// Counts the subscriptions that match: of kind `kind` unless `any_kind`,
    /// and not internal unless `with_private`.
    fn count_where(&self, kind: EventKind, any_kind: bool, with_private: bool) -> (r: usize)
        ensures
            r == select(self@, kind, any_kind, with_private, true).len(),
    {
        let mut n: usize = 0;
        let mut i: usize = 0;
        while i < self.subs.len()
            invariant
                i <= self.subs@.len(),
                n == select(self@.subrange(0, i as int), kind, any_kind, with_private, true).len(),
                n <= i,
            decreases self.subs.len() - i,
        {
            let s = &self.subs[i];
            proof {
                let pre = self@.subrange(0, i + 1);
                assert(pre.drop_last() =~= self@.subrange(0, i as int));
                assert(pre.last() == self@[i as int]);
            }
            if (any_kind || s.kind == kind) && (with_private || !s.private) {
                n = n + 1;
            }
            i = i + 1;
        }
        assert(self@.subrange(0, i as int) =~= self@);
        n
    }

    /// The numbers of the subscriptions of kind `kind`, in order.
    pub fn get(&self, kind: EventKind) -> (r: Vec<Id>)
        ensures
            r@.len() == of_kind(self@, kind).len(),
            forall|i: int| 0 <= i < r@.len() ==> (#[trigger] r@[i]).0 == of_kind(self@, kind)[i].id,
    {
        let mut out: Vec<Id> = Vec::new();
        let mut i: usize = 0;
        while i < self.subs.len()
            invariant
                i <= self.subs@.len(),
                out@.len() == of_kind(self@.subrange(0, i as int), kind).len(),
                forall|j: int| 0 <= j < out@.len() ==> (#[trigger] out@[j]).0 == of_kind(self@.subrange(0, i as int), kind)[j].id,
            decreases self.subs.len() - i,
        {
            proof {
                let pre = self@.subrange(0, i + 1);
                assert(pre.drop_last() =~= self@.subrange(0, i as int));
                assert(pre.last() == self@[i as int]);
            }
            if self.subs[i].kind == kind {
                out.push(self.subs[i].id);
            }
            i = i + 1;
        }
        assert(self@.subrange(0, i as int) =~= self@);
        out
    }

    /// Removes the subscriptions that match: of kind `kind` unless
    /// `any_kind`, and not internal unless `with_private`. Returns how many
    /// were removed.
    fn remove_where(&mut self, kind: EventKind, any_kind: bool, with_private: bool) -> (r: usize)
        requires
            old(self).wf(),
        ensures
            final(self).wf(),
            final(self)@ == select(old(self)@, kind, any_kind, with_private, false),
            r == select(old(self)@, kind, any_kind, with_private, true).len(),
            final(self).next_id() == old(self).next_id(),
    {
        let ghost all = old(self)@;
        let len0 = self.subs.len();
        let ghost n = all.len();
        let mut i: usize = 0;
        let mut j: usize = 0;
        let mut removed: usize = 0;
        while i < self.subs.len()
            invariant
                all == old(self)@,
                n == all.len(),
                j <= n,
                self@ == select(all.subrange(0, j as int), kind, any_kind, with_private, false) + all.subrange(j as int, n as int),
                i == select(all.subrange(0, j as int), kind, any_kind, with_private, false).len(),
                self.subs@.len() == i + (n - j),
                removed == select(all.subrange(0, j as int), kind, any_kind, with_private, true).len(),
                n == len0,
                removed <= j,
                self.next == old(self).next,
                self.wf(),
            decreases self.subs.len() - i,
        {
            proof {
                let pre = all.subrange(0, j + 1);
                assert(pre.drop_last() =~= all.subrange(0, j as int));
                assert(self@[i as int] == all[j as int]);
                assert(pre.last() == all[j as int]);
            }
            let ghost before = self@;
            if (any_kind || self.subs[i].kind == kind) && (with_private || !self.subs[i].private) {
                let ghost subs_before = self.subs@;
                self.subs.remove(i);
                self.logs = Ghost(self.logs@.remove(i as int));
                removed = removed + 1;
                proof {
                    assert forall|k: int| 0 <= k < self.subs@.len() implies (#[trigger] self.subs@[k]).id.0 < self.next by {
                        if k < i {
                            assert(self.subs@[k] == subs_before[k]);
                        } else {
                            assert(self.subs@[k] == subs_before[k + 1]);
                        }
                    }
                }
                proof {
                    assert(self@ =~= before.remove(i as int));
                    assert(self@ =~= select(all.subrange(0, j + 1), kind, any_kind, with_private, false) + all.subrange(j + 1, n as int));
                }
            } else {
                i = i + 1;
                proof {
                    assert(self@ =~= select(all.subrange(0, j + 1), kind, any_kind, with_private, false) + all.subrange(j + 1, n as int));
                }
            }
            j = j + 1;
        }
        proof {
            assert(all.subrange(0, j as int) =~= all);
            assert(self@ =~= select(all, kind, any_kind, with_private, false));
        }
        removed
    }

    /// Sends `msg` to every subscription of kind `kind`, in order, and drops
    /// those whose receiver is gone. Returns one outcome per subscription of
    /// that kind: whether it was handed the message.
    pub fn send(&mut self, kind: EventKind, msg: &Arc<Message>) -> (outs: Vec<bool>)
        requires
            old(self).wf(),
        ensures
            final(self).wf(),
            outs@.len() == of_kind(old(self)@, kind).len(),
            final(self)@ == prune(old(self)@, kind, outs@, *msg),
            final(self).next_id() == old(self).next_id(),
    {
        let ghost all = old(self)@;
        let ghost n = all.len();
        let len0 = self.subs.len();
        let mut outs: Vec<bool> = Vec::new();
        let mut i: usize = 0;
        let mut j: usize = 0;
        while i < self.subs.len()
            invariant
                all == old(self)@,
                n == all.len(),
                j <= n,
                self@ == prune(all.subrange(0, j as int), kind, outs@, *msg) + all.subrange(j as int, n as int),
                i == prune(all.subrange(0, j as int), kind, outs@, *msg).len(),
                self.subs@.len() == i + (n - j),
                outs@.len() == of_kind(all.subrange(0, j as int), kind).len(),
                n == len0,
                self.next == old(self).next,
                self.wf(),
            decreases self.subs.len() - i,
        {
            proof {
                let pre = all.subrange(0, j + 1);
                assert(pre.drop_last() =~= all.subrange(0, j as int));
                assert(self@[i as int] == all[j as int]);
                assert(pre.last() == all[j as int]);
            }
            let ghost before = self@;
            let ghost outs_before = outs@;
            if self.subs[i].kind == kind {
                let delivered = match self.subs[i].sink.try_send(Arc::clone(msg)) {
                    Ok(()) => true,
                    Err(_) => false,
                };
                outs.push(delivered);
                proof {
                    assert(outs@.drop_last() =~= outs_before);
                }
                if delivered {
                    proof {
                        self.logs@ = self.logs@.update(i as int, self.logs@[i as int].push(*msg));
                        assert(self@ =~= before.update(i as int, handed(before[i as int], *msg)));
                    }
                    i = i + 1;
                    proof {
                        assert(self@ =~= prune(all.subrange(0, j + 1), kind, outs@, *msg) + all.subrange(j + 1, n as int));
                    }
                } else {
                    let ghost subs_before = self.subs@;
                    self.subs.remove(i);
                    self.logs = Ghost(self.logs@.remove(i as int));
                    proof {
                        assert forall|k: int| 0 <= k < self.subs@.len() implies (#[trigger] self.subs@[k]).id.0 < self.next by {
                            if k < i {
                                assert(self.subs@[k] == subs_before[k]);
                            } else {
                                assert(self.subs@[k] == subs_before[k + 1]);
                            }
                        }
                        assert(self@ =~= before.remove(i as int));
                        assert(self@ =~= prune(all.subrange(0, j + 1), kind, outs@, *msg) + all.subrange(j + 1, n as int));
                    }
                }
            } else {
                i = i + 1;
                proof {
                    assert(self@ =~= prune(all.subrange(0, j + 1), kind, outs@, *msg) + all.subrange(j + 1, n as int));
                }
            }
            j = j + 1;
        }
        proof {
            assert(all.subrange(0, j as int) =~= all);
            assert(self@ =~= prune(all, kind, outs@, *msg));
        }
        outs
    }
}

/// Clearing every user subscription leaves no user subscription, and every
/// internal one, in order.
pub proof fn lemma_clear_all(s: Seq<SubView>)
    ensures
        user_subs(private_subs(s)).len() == 0,
        private_subs(private_subs(s)) == private_subs(s),
    decreases s.len(),
{
    if s.len() > 0 {
        lemma_clear_all(s.drop_last());
        let p = private_subs(s);
        if !matches(s.last(), EventKind::All, true, false) {
            assert(p == private_subs(s.drop_last()).push(s.last()));
            assert(p.drop_last() =~= private_subs(s.drop_last()));
        }
    }
}

/// The cached message of kind `k`, if there is one.
pub open spec fn cache_get(c: Seq<(EventKind, Arc<Message>)>, k: EventKind) -> Option<Arc<Message>>
    decreases c.len(),
{
    if c.len() == 0 {
        None
    } else if c.last().0 == k {
        Some(c.last().1)
    } else {
        cache_get(c.drop_last(), k)
    }
}

/// The cache after observing `m` of kind `k`: the first observation fills
/// the slot, later ones leave it.
pub open spec fn remember(c: Seq<(EventKind, Arc<Message>)>, k: EventKind, m: Arc<Message>) -> Seq<(EventKind, Arc<Message>)> {
    if cache_get(c, k) is Some {
        c
    } else {
        c.push((k, m))
    }
}

/// Once a kind's slot holds a message, it keeps it through any number of
/// later observations: waiting for that kind again answers with the same
/// message.
pub proof fn lemma_wait_for_stable(c: Seq<(EventKind, Arc<Message>)>, k: EventKind, m: Arc<Message>, m2: Arc<Message>)
    ensures
        cache_get(remember(c, k, m), k) == (match cache_get(c, k) {
            Some(old) => Some(old),
            None => Some(m),
        }),
        cache_get(remember(remember(c, k, m), k, m2), k) == cache_get(remember(c, k, m), k),
{
    if cache_get(c, k) is None {
        let c2 = c.push((k, m));
        assert(c2.last() == (k, m));
    }
}

/// What waiting for a kind gives: the cached message, or a fresh
/// subscription to await it on.
pub enum WaitFor {
    Cached(Arc<Message>),
    Pending(Receiver<Arc<Message>>),
}

/// What one dispatch handed out: one outcome per subscription reached, for
/// the message's own kind, for `All`, and for `Raw`.
pub struct Delivery {
    pub kind: EventKind,
    /// The typed message handed to the kind's and to `All`'s subscriptions.
    pub message: Arc<Message>,
    /// The frame handed to `Raw`'s subscriptions.
    pub frame: Arc<Message>,
    pub primary: Vec<bool>,
    pub all: Vec<bool>,
    pub raw: Vec<bool>,
}

/// Fans decoded frames out to subscriptions and caches the first message of
/// each kind for waiters.
pub struct Dispatcher {
    map: EventMap,
    cache: Vec<(EventKind, Arc<Message>)>,
}

impl Dispatcher {
    /// The subscriptions.
    pub closed spec fn subs(&self) -> Seq<SubView> {
        self.map@
    }

    /// The cache: at most one message per kind.
    pub closed spec fn cached(&self) -> Seq<(EventKind, Arc<Message>)> {
        self.cache@
    }

    /// The dispatcher is consistent: every subscription number in use is
    /// below `next_id`.
    pub closed spec fn wf(&self) -> bool {
        self.map.wf()
    }

    /// The number the next subscription gets.
    pub closed spec fn next_id(&self) -> nat {
        self.map.next_id()
    }

    /// The number the next subscription gets; subscribing needs it below
    /// `usize::MAX`.
    pub fn next_number(&self) -> (r: usize)
        ensures
            r == self.next_id(),
    {
        self.map.next_number()
    }

    /// A dispatcher with no subscriptions.
    pub fn new() -> (r: Dispatcher)
        ensures
            r.subs() == Seq::<SubView>::empty(),
            r.cached() == Seq::<(EventKind, Arc<Message>)>::empty(),
            r.wf(),
            r.next_id() == 0,
    {
        let r = Dispatcher { map: EventMap::new(), cache: Vec::new() };
        assert(r.cached() =~= Seq::<(EventKind, Arc<Message>)>::empty());
        r
    }

    /// Subscribes to messages of kind `kind`.
    pub fn subscribe(&mut self, kind: EventKind) -> (r: Receiver<Arc<Message>>)
        requires
            old(self).wf(),
            old(self).next_id() < usize::MAX,
        ensures
            final(self).wf(),
            final(self).next_id() == old(self).next_id() + 1,
            forall|i: int| 0 <= i < old(self).subs().len() ==> (#[trigger] old(self).subs()[i]).id != old(self).next_id(),
            final(self).subs() == old(self).subs().push(SubView { id: old(self).next_id() as usize, kind, private: false, handed: Seq::empty() }),
            final(self).cached() == old(self).cached(),
    {
        self.subscribe_internal(kind, false)
    }

    /// Subscribes to messages of kind `kind`; an internal (`private`)
    /// subscription survives the clearing that users ask for.
    pub fn subscribe_internal(&mut self, kind: EventKind, private: bool) -> (r: Receiver<Arc<Message>>)
        requires
            old(self).wf(),
            old(self).next_id() < usize::MAX,
        ensures
            final(self).wf(),
            final(self).next_id() == old(self).next_id() + 1,
            forall|i: int| 0 <= i < old(self).subs().len() ==> (#[trigger] old(self).subs()[i]).id != old(self).next_id(),
            final(self).subs() == old(self).subs().push(SubView { id: old(self).next_id() as usize, kind, private, handed: Seq::empty() }),
            final(self).cached() == old(self).cached(),
    {
        self.map.register(kind, private)
    }

    /// The number of user subscriptions of kind `kind`.
    pub fn count_subscribers(&self, kind: EventKind) -> (r: usize)
        ensures
            r == user_of_kind(self.subs(), kind).len(),
    {
        self.map.count_where(kind, false, false)
    }

    /// The number of user subscriptions of every kind.
    pub fn count_subscribers_all(&self) -> (r: usize)
        ensures
            r == user_subs(self.subs()).len(),
    {
        self.map.count_where(EventKind::All, true, false)
    }

    /// Ends the user subscriptions of kind `kind`; returns how many there were.
    pub fn clear_subscriptions(&mut self, kind: EventKind) -> (r: usize)
        requires
            old(self).wf(),
        ensures
            final(self).wf(),
            final(self).subs() == select(old(self).subs(), kind, false, false, false),
            r == user_of_kind(old(self).subs(), kind).len(),
            final(self).cached() == old(self).cached(),
    {
        self.map.remove_where(kind, false, false)
    }

    /// Ends every user subscription; internal ones stay. Returns how many
    /// were ended.
    pub fn clear_subscriptions_all(&mut self) -> (r: usize)
        requires
            old(self).wf(),
        ensures
            final(self).wf(),
            final(self).subs() == private_subs(old(self).subs()),
            r == user_subs(old(self).subs()).len(),
            final(self).cached() == old(self).cached(),
    {
        self.map.remove_where(EventKind::All, true, false)
    }

    /// Ends every subscription, internal ones too, and empties the cache.
    pub fn reset(&mut self)
        requires
            old(self).wf(),
        ensures
            final(self).wf(),
            final(self).subs() == Seq::<SubView>::empty(),
            final(self).cached() == Seq::<(EventKind, Arc<Message>)>::empty(),
    {
        self.map.remove_where(EventKind::All, true, true);
        self.cache = Vec::new();
        proof {
            let s = old(self).subs();
            lemma_select_split(s, EventKind::All, true, true);
            lemma_select_all(s);
        }
        assert(self.cached() =~= Seq::<(EventKind, Arc<Message>)>::empty());
    }

    /// Hands a decoded frame to its subscribers: read as the variant its
    /// command selects, it goes to that kind's subscriptions (when the
    /// variant could read it) and to `All`; the frame itself goes to `Raw`.
    /// Every subscription reached gets exactly one send, in registration
    /// order, and those whose receiver is gone are dropped.
    pub fn dispatch(&mut self, raw: IrcMessage) -> (r: Delivery)
        requires
            old(self).wf(),
        ensures
            final(self).wf(),
            r.kind == kind_of_command(raw@.command),
            ({
                let typed = readable(r.kind, raw@);
                let s0 = old(self).subs();
                let s1 = if typed { prune(s0, r.kind, r.primary@, r.message) } else { s0 };
                let s2 = prune(s1, EventKind::All, r.all@, r.message);
                &&& r.primary@.len() == (if typed { of_kind(s0, r.kind).len() } else { 0 })
                &&& r.all@.len() == of_kind(s1, EventKind::All).len()
                &&& r.raw@.len() == of_kind(s2, EventKind::Raw).len()
                &&& final(self).subs() == prune(s2, EventKind::Raw, r.raw@, r.frame)
            }),
            parsed_from(raw, *r.message),
            (*r.frame) matches Message::Raw(f) && f@ == raw@ && f.line() == raw.line(),
            final(self).cached() == old(self).cached(),
    {
        let kind = kind_of(raw.command());
        let frame = Arc::new(Message::Raw(raw.clone()));
        let typed = Arc::new(Message::parse(raw));
        let primary = if kind != EventKind::Raw && typed.kind() == kind {
            self.map.send(kind, &typed)
        } else {
            Vec::new()
        };
        let all = self.map.send(EventKind::All, &typed);
        let raw_outs = self.map.send(EventKind::Raw, &frame);
        Delivery { kind, message: typed, frame, primary, all, raw: raw_outs }
    }

    /// The cached message of kind `kind`.
    pub fn cached_message(&self, kind: EventKind) -> (r: Option<Arc<Message>>)
        ensures
            r == cache_get(self.cached(), kind),
    {
        let mut i = self.cache.len();
        assert(self.cache@.subrange(0, i as int) =~= self.cache@);
        while i > 0
            invariant
                i <= self.cache@.len(),
                cache_get(self.cache@, kind) == cache_get(self.cache@.subrange(0, i as int), kind),
            decreases i,
        {
            proof {
                let pre = self.cache@.subrange(0, i as int);
                assert(pre.drop_last() =~= self.cache@.subrange(0, i - 1));
            }
            if self.cache[i - 1].0 == kind {
                return Some(self.cache[i - 1].1.clone());
            }
            i = i - 1;
        }
        None
    }

    /// Waiting for a kind: the cached message when there is one (nothing
    /// changes then), else a new user subscription to await it on.
    pub fn wait_for(&mut self, kind: EventKind) -> (r: WaitFor)
        requires
            old(self).wf(),
            old(self).next_id() < usize::MAX,
        ensures
            final(self).wf(),
            cache_get(old(self).cached(), kind) matches Some(m) ==> r == WaitFor::Cached(m) && final(self).subs() == old(self).subs(),
            cache_get(old(self).cached(), kind) is None ==> r is Pending
                && final(self).subs() == old(self).subs().push(SubView { id: old(self).next_id() as usize, kind, private: false, handed: Seq::empty() }),
            final(self).cached() == old(self).cached(),
    {
        match self.cached_message(kind) {
            Some(m) => WaitFor::Cached(m),
            None => WaitFor::Pending(self.subscribe(kind)),
        }
    }

    /// Records `msg` as observed for `kind`, unless a message is cached for
    /// it already; returns what is cached now.
    pub fn remember(&mut self, kind: EventKind, msg: Arc<Message>) -> (r: Arc<Message>)
        requires
            old(self).wf(),
        ensures
            final(self).wf(),
            final(self).cached() == remember(old(self).cached(), kind, msg),
            Some(r) == cache_get(final(self).cached(), kind),
            final(self).subs() == old(self).subs(),
    {
        match self.cached_message(kind) {
            Some(m) => m,
            None => {
                let keep = msg.clone();
                self.cache.push((kind, msg));
                proof {
                    assert(self.cache@.last() == (kind, msg));
                }
                keep
            },
        }
    }
}

proof fn lemma_select_all(s: Seq<SubView>)
    ensures
        select(s, EventKind::All, true, true, false) == Seq::<SubView>::empty(),
    decreases s.len(),
{
    if s.len() > 0 {
        lemma_select_all(s.drop_last());
    }
}

} // verus!
