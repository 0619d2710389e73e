use vstd::prelude::*;
use vstd::pervasive::VecAdditionalExecFns;
use crate::context::Context;
use crate::error::Error;

verus! {

/// A stored ticket. Its `id` is the index of the slot it occupies in the
/// store; `user_id` is the owner that created it.
#[derive(Debug)]
pub struct ServerTicket {
    pub id: u64,
    pub user_id: u64,
    pub name: String,
}

impl Clone for ServerTicket {
    fn clone(&self) -> (r: Self)
        ensures
            r == *self,
    {
        ServerTicket { id: self.id, user_id: self.user_id, name: self.name.clone() }
    }
}

/// The payload a caller sends to create a ticket.
#[derive(Debug)]
pub struct ClientTicket {
    pub name: String,
}

impl Clone for ClientTicket {
    fn clone(&self) -> (r: Self)
        ensures
            r == *self,
    {
        ClientTicket { name: self.name.clone() }
    }
}

/// The store's shape invariant: every occupied slot holds a ticket whose id
/// equals the slot's index. Deletion leaves a hole, so ids are stable and
/// never reused.
pub open spec fn store_wf(s: Seq<Option<ServerTicket>>) -> bool {
    forall|i: int|
        0 <= i < s.len() ==> ((#[trigger] s[i]) matches Some(t) ==> t.id == i)
}

/// The tickets a listing returns: the occupied slots, in slot order.
pub open spec fn live_seq(s: Seq<Option<ServerTicket>>) -> Seq<ServerTicket>
    decreases s.len(),
{
    if s.len() == 0 {
        Seq::empty()
    } else {
        match s.last() {
            Some(t) => live_seq(s.drop_last()).push(t),
            None => live_seq(s.drop_last()),
        }
    }
}

/// When a deletion succeeds: the id addresses an existing slot, the slot is
/// still occupied, and the caller owns the ticket in it.
pub open spec fn can_delete(s: Seq<Option<ServerTicket>>, user_id: u64, id: u64) -> bool {
    &&& id < s.len()
    &&& s[id as int] matches Some(t)
    &&& s[id as int]->0.user_id == user_id
}

/// Listing law: under the store invariant, the listed tickets carry strictly
/// increasing ids — slot order is id order — and a ticket is listed exactly
/// when some occupied slot holds it (the non-deleted subset, nothing else).
pub proof fn lemma_live_seq_sorted_and_complete(s: Seq<Option<ServerTicket>>)
    requires
        store_wf(s),
    ensures
        forall|i: int, j: int|
            0 <= i < j < live_seq(s).len() ==> live_seq(s)[i].id < live_seq(s)[j].id,
        forall|t: ServerTicket|
            #[trigger] live_seq(s).contains(t) <==> exists|k: int|
                0 <= k < s.len() && s[k] == Some(t),
    decreases s.len(),
{
    if s.len() == 0 {
        assert(live_seq(s).len() == 0);
    } else {
        let pre = s.drop_last();
        let live_pre = live_seq(pre);
        assert forall|i: int| 0 <= i < pre.len() implies pre[i] == s[i] by {}
        assert(store_wf(pre));
        lemma_live_seq_sorted_and_complete(pre);
        // every listed ticket of the prefix sits in a slot below the last one
        assert forall|i: int| 0 <= i < live_pre.len() implies live_pre[i].id < s.len() - 1 by {
            assert(live_pre.contains(live_pre[i]));
            let k = choose|k: int| 0 <= k < pre.len() && pre[k] == Some(live_pre[i]);
            assert(live_pre[i].id == k);
        }
        match s.last() {
            Some(tl) => {
                assert(s[s.len() - 1] == Some(tl));
                assert(tl.id == s.len() - 1);
                let live = live_pre.push(tl);
                assert(live_seq(s) == live);
                assert forall|t: ServerTicket| live.contains(t) implies exists|k: int|
                    0 <= k < s.len() && s[k] == Some(t) by {
                    let i = choose|i: int| 0 <= i < live.len() && live[i] == t;
                    if i < live.len() - 1 {
                        assert(live_pre[i] == t);
                        assert(live_pre.contains(t));
                        let k = choose|k: int| 0 <= k < pre.len() && pre[k] == Some(t);
                        assert(s[k] == Some(t));
                    } else {
                        assert(t == tl);
                        assert(s[s.len() - 1] == Some(t));
                    }
                }
                assert forall|t: ServerTicket|
                    (exists|k: int| 0 <= k < s.len() && s[k] == Some(t)) implies live.contains(
                    t,
                ) by {
                    let k = choose|k: int| 0 <= k < s.len() && s[k] == Some(t);
                    if k < s.len() - 1 {
                        assert(pre[k] == Some(t));
                        assert(live_pre.contains(t));
                        let i = choose|i: int| 0 <= i < live_pre.len() && live_pre[i] == t;
                        assert(live[i] == t);
                    } else {
                        assert(t == tl);
                        assert(live[live.len() - 1] == t);
                    }
                }
            },
            None => {
                assert(live_seq(s) == live_pre);
                assert forall|t: ServerTicket|
                    (exists|k: int| 0 <= k < s.len() && s[k] == Some(t)) implies live_pre.contains(
                    t,
                ) by {
                    let k = choose|k: int| 0 <= k < s.len() && s[k] == Some(t);
                    assert(k < s.len() - 1);
                    assert(pre[k] == Some(t));
                }
                assert forall|t: ServerTicket| live_pre.contains(t) implies exists|k: int|
                    0 <= k < s.len() && s[k] == Some(t) by {
                    let k = choose|k: int| 0 <= k < pre.len() && pre[k] == Some(t);
                    assert(s[k] == Some(t));
                }
            },
        }
    }
}

/// The in-memory ticket store: an ordered sequence of optional ticket slots.
/// Its view is that sequence.
pub struct ModelController {
    tickets: Vec<Option<ServerTicket>>,
}

impl View for ModelController {
    type V = Seq<Option<ServerTicket>>;

    closed spec fn view(&self) -> Seq<Option<ServerTicket>> {
        self.tickets@
    }
}

impl ModelController {
    pub open spec fn wf(&self) -> bool {
        store_wf(self@)
    }

    pub fn new() -> (mc: ModelController)
        ensures
            mc@ == Seq::<Option<ServerTicket>>::empty(),
            mc.wf(),
    {
        ModelController { tickets: Vec::new() }
    }

    /// Append a new ticket owned by the caller; its id is the index of the
    /// fresh slot, i.e. the store's previous length. Creation always succeeds.
    pub fn create_ticket(&mut self, ctx: Context, ticket: ClientTicket) -> (r: Result<
        ServerTicket,
        Error,
    >)
        requires
            old(self).wf(),
        ensures
            r matches Ok(t) && {
                &&& t.id == old(self)@.len()
                &&& t.user_id == ctx.user_id
                &&& t.name == ticket.name
                &&& final(self)@ == old(self)@.push(Some(t))
            },
            final(self).wf(),
    {
        let id: u64 = self.tickets.len() as u64;
        let new_ticket = ServerTicket { id, user_id: ctx.user_id, name: ticket.name };
        let stored = new_ticket.clone();
        self.tickets.push(Some(stored));
        Ok(new_ticket)
    }

    /// List all live tickets: the occupied slots in ascending id order.
    pub fn read_tickets(&self) -> (r: Result<Vec<ServerTicket>, Error>)
        ensures
            r matches Ok(v) && v@ == live_seq(self@),
    {
        let mut result: Vec<ServerTicket> = Vec::new();
        let mut i: usize = 0;
        while i < self.tickets.len()
            invariant
                i <= self.tickets.len(),
                result@ == live_seq(self@.take(i as int)),
            decreases self.tickets.len() - i,
        {
            match &self.tickets[i] {
                Some(t) => {
                    result.push(t.clone());
                },
                None => {},
            }
            proof {
                let pre = self@.take(i as int + 1);
                assert(pre.drop_last() =~= self@.take(i as int));
                assert(pre.last() == self@[i as int]);
            }
            i += 1;
        }
        proof {
            assert(self@.take(self@.len() as int) =~= self@);
        }
        Ok(result)
    }

    /// Delete the ticket in slot `id` on behalf of the caller. Fails with
    /// `DeleteTicketFailed` exactly when the id is out of range, the slot is
    /// already a hole, or the ticket belongs to someone else; otherwise the
    /// slot is cleared (not removed) and the deleted ticket is returned.
    pub fn delete_ticket(&mut self, ctx: Context, id: u64) -> (r: Result<ServerTicket, Error>)
        requires
            old(self).wf(),
        ensures
            can_delete(old(self)@, ctx.user_id, id) ==> (r matches Ok(t) && {
                &&& old(self)@[id as int] == Some(t)
                &&& final(self)@ == old(self)@.update(id as int, None)
            }),
            !can_delete(old(self)@, ctx.user_id, id) ==> {
                &&& r == Err::<ServerTicket, Error>(Error::DeleteTicketFailed { id })
                &&& final(self)@ == old(self)@
            },
            final(self).wf(),
    {
        if id >= self.tickets.len() as u64 {
            return Err(Error::DeleteTicketFailed { id });
        }
        let idx: usize = id as usize;
        let found = match &self.tickets[idx] {
            Some(t) => {
                if t.user_id == ctx.user_id {
                    Some(t.clone())
                } else {
                    None
                }
            },
            None => None,
        };
        match found {
            Some(t) => {
                self.tickets.set(idx, None);
                Ok(t)
            },
            None => Err(Error::DeleteTicketFailed { id }),
        }
    }
}

} // verus!

