//! The registry of connected clients: a capped list of slots, each a
//! connection id with the handle its messages are sent through. The caller
//! holds the registry behind a lock and does the sending.
use vstd::prelude::*;

verus! {

/// How many messages a client's outbound channel buffers.
pub const SEND_BUFFER_SIZE: usize = 256;

/// One connected client: its id and its outbound handle.
pub struct HubSlot<S> {
    pub id: u128,
    pub tx: S,
}

/// The connected clients, at most `max_conn` of them, in order of joining.
pub struct Hub<S> {
    max_conn: usize,
    slots: Vec<HubSlot<S>>,
}

/// Keeps the slots whose id is not `id`.
pub open spec fn other_than<S>(id: u128) -> spec_fn(HubSlot<S>) -> bool {
    |s: HubSlot<S>| s.id != id
}

impl<S> Hub<S> {
    /// The connected clients in order of joining.
    pub closed spec fn slots(&self) -> Seq<HubSlot<S>> {
        self.slots@
    }

    /// The most clients the hub takes.
    pub closed spec fn max_conn(&self) -> nat {
        self.max_conn as nat
    }

    /// An empty hub that takes at most `max_conn` clients.
    pub fn new(max_conn: usize) -> (h: Self)
        ensures
            h.slots() == Seq::<HubSlot<S>>::empty(),
            h.max_conn() == max_conn,
    {
        Hub { max_conn, slots: Vec::new() }
    }

    /// The number of connected clients.
    pub fn len(&self) -> (n: usize)
        ensures
            n == self.slots().len(),
    {
        self.slots.len()
    }

    /// Adds a client unless the hub is full; `false` when it is.
    pub fn register(&mut self, id: u128, tx: S) -> (ok: bool)
        ensures
            ok == (old(self).slots().len() < old(self).max_conn()),
            ok ==> final(self).slots() == old(self).slots().push(HubSlot { id, tx }),
            !ok ==> final(self).slots() == old(self).slots(),
            final(self).max_conn() == old(self).max_conn(),
    {
        if self.slots.len() >= self.max_conn {
            return false;
        }
        self.slots.push(HubSlot { id, tx });
        true
    }

    /// Removes every slot of client `id`, keeping the others in order.
    pub fn unregister(&mut self, id: u128)
        ensures
            final(self).slots() == old(self).slots().filter(other_than(id)),
            final(self).max_conn() == old(self).max_conn(),
    {
        let mut all: Vec<HubSlot<S>> = Vec::new();
        std::mem::swap(&mut all, &mut self.slots);
        let ghost start = all@;
        let mut kept: Vec<HubSlot<S>> = Vec::new();
        for s in it: all.into_iter()
            invariant
                it.seq() == start,
                kept@ == start.take(it.index() as int).filter(other_than(id)),
        {
            proof {
                let k = it.index() as int;
                assert(start.take(k + 1) =~= start.take(k).push(start[k]));
                start.take(k).lemma_filter_push(start[k], other_than(id));
            }
            if s.id != id {
                kept.push(s);
            }
        }
        proof {
            assert(start.take(start.len() as int) =~= start);
        }
        self.slots = kept;
    }

    /// The outbound handles, in order of joining, that a broadcast goes to.
    pub fn handles(&self) -> (v: Vec<&S>)
        ensures
            v@.len() == self.slots().len(),
            forall|i: int| 0 <= i < v@.len() ==> *v@[i] == self.slots()[i].tx,
    {
        let mut v: Vec<&S> = Vec::new();
        let mut i: usize = 0;
        while i < self.slots.len()
            invariant
                i <= self.slots@.len(),
                v@.len() == i,
                forall|j: int| 0 <= j < i ==> *v@[j] == self.slots@[j].tx,
            decreases self.slots@.len() - i,
        {
            v.push(&self.slots[i].tx);
            i += 1;
        }
        v
    }
}

/// A hub never holds more clients than it takes: registering on a hub within
/// its cap keeps it within its cap, and removing a client does too.
pub proof fn law_hub_within_cap<S>(before: Hub<S>, reg: Hub<S>, unreg: Hub<S>, id: u128, tx: S, ok: bool)
    requires
        before.slots().len() <= before.max_conn(),
        ok == (before.slots().len() < before.max_conn()),
        ok ==> reg.slots() == before.slots().push(HubSlot { id, tx }),
        !ok ==> reg.slots() == before.slots(),
        reg.max_conn() == before.max_conn(),
        unreg.slots() == before.slots().filter(other_than(id)),
        unreg.max_conn() == before.max_conn(),
    ensures
        reg.slots().len() <= reg.max_conn(),
        unreg.slots().len() <= unreg.max_conn(),
        forall|i: int| 0 <= i < unreg.slots().len() ==> #[trigger] unreg.slots()[i].id != id,
{
    before.slots().lemma_filter_len(other_than(id));
    assert forall|i: int| 0 <= i < unreg.slots().len() implies #[trigger] unreg.slots()[i].id != id by {
        before.slots().lemma_filter_pred(other_than(id), i);
    }
}

} // verus!
