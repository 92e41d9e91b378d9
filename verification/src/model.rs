//! The in-memory ticket store and its CRUD semantics.
//!
//! The store is an append-only-by-index collection of optional ticket slots:
//! a create appends an occupied slot whose ticket id is the slot's index, a
//! delete empties a slot but never removes it, so an id, once assigned, is
//! never reused. `ModelController` owns the collection; callers that share it
//! across concurrent requests serialize every call behind one lock, so each
//! contract below describes one linearized step.

use vstd::prelude::*;

use crate::ctx::Ctx;
use crate::error::Error;

verus! {

/// A ticket record: its stable id, the creator's user id, and a title.
#[derive(Debug)]
pub struct Ticket {
    pub id: u64,
    pub cid: u64,
    pub title: String,
}

/// The payload a create takes: only the title; id and creator come from the
/// store and the caller's context.
pub struct TicketForCreate {
    pub title: String,
}

/// The mathematical value of a ticket.
pub ghost struct TicketView {
    pub id: u64,
    pub cid: u64,
    pub title: Seq<char>,
}

impl View for Ticket {
    type V = TicketView;

    open spec fn view(&self) -> TicketView {
        TicketView { id: self.id, cid: self.cid, title: self.title@ }
    }
}

impl Clone for Ticket {
    fn clone(&self) -> (r: Self)
        ensures
            r@ == self@,
    {
        Ticket { id: self.id, cid: self.cid, title: self.title.clone() }
    }
}

/// The mathematical value of one slot.
pub open spec fn slot_view(s: Option<Ticket>) -> Option<TicketView> {
    match s {
        Some(t) => Some(t@),
        None => None,
    }
}

/// The mathematical value of a sequence of tickets.
pub open spec fn tickets_view(ts: Seq<Ticket>) -> Seq<TicketView> {
    ts.map_values(|t: Ticket| t@)
}

/// Well-formed store: every occupied slot holds the ticket whose id is the
/// slot's own index. This is what makes ids stable and never reused.
pub open spec fn store_wf(s: Seq<Option<TicketView>>) -> bool {
    forall|i: int|
        0 <= i < s.len() && s[i] is Some ==> (#[trigger] s[i])->Some_0.id == i
}

/// The tickets a list returns: the occupied slots, in slot (= creation) order.
pub open spec fn visible(s: Seq<Option<TicketView>>) -> Seq<TicketView>
    decreases s.len(),
{
    if s.len() == 0 {
        Seq::empty()
    } else {
        if s.last() is Some {
            visible(s.drop_last()).push(s.last()->Some_0)
        } else {
            visible(s.drop_last())
        }
    }
}

/// What a create does to the store: append an occupied slot whose ticket id
/// is the store's length at the time of the call.
pub open spec fn spec_create(s: Seq<Option<TicketView>>, cid: u64, title: Seq<char>) -> Seq<
    Option<TicketView>,
> {
    s.push(Some(TicketView { id: s.len() as u64, cid, title }))
}

/// Every listed ticket sits in the slot its id names: the id is in range and
/// that slot holds exactly this ticket.
pub proof fn lemma_visible_slot(s: Seq<Option<TicketView>>)
    requires
        store_wf(s),
    ensures
        forall|p: int|
            0 <= p < visible(s).len() ==> (#[trigger] visible(s)[p]).id < s.len() && s[visible(
                s,
            )[p].id as int] == Some(visible(s)[p]),
    decreases s.len(),
{
    if s.len() > 0 {
        let dl = s.drop_last();
        assert(store_wf(dl)) by {
            assert(forall|i: int| 0 <= i < dl.len() ==> dl[i] == s[i]);
        }
        lemma_visible_slot(dl);
        assert(forall|p: int|
            0 <= p < visible(dl).len() ==> s[(#[trigger] visible(dl)[p]).id as int] == Some(
                visible(dl)[p],
            )) by {
            assert(forall|i: int| 0 <= i < dl.len() ==> dl[i] == s[i]);
        }
        if s.last() is Some {
            assert(s[s.len() - 1] is Some);
            assert(s.last()->Some_0.id == s.len() - 1);
        }
    }
}

/// No two listed tickets share an id: the listing of a well-formed store has
/// pairwise distinct ids.
pub proof fn lemma_visible_ids_unique(s: Seq<Option<TicketView>>)
    requires
        store_wf(s),
    ensures
        forall|p: int, q: int|
            0 <= p < q < visible(s).len() ==> (#[trigger] visible(s)[p]).id != (
            #[trigger] visible(s)[q]).id,
    decreases s.len(),
{
    if s.len() > 0 {
        let dl = s.drop_last();
        assert(store_wf(dl)) by {
            assert(forall|i: int| 0 <= i < dl.len() ==> dl[i] == s[i]);
        }
        lemma_visible_ids_unique(dl);
        lemma_visible_slot(dl);
        if s.last() is Some {
            assert(s.last()->Some_0.id == s.len() - 1);
            assert(forall|p: int|
                0 <= p < visible(dl).len() ==> (#[trigger] visible(dl)[p]).id < dl.len());
        }
    }
}

/// An occupied slot's ticket appears in the listing.
pub proof fn lemma_visible_contains(s: Seq<Option<TicketView>>, i: int)
    requires
        0 <= i < s.len(),
        s[i] is Some,
    ensures
        exists|p: int| 0 <= p < visible(s).len() && visible(s)[p] == s[i]->Some_0,
    decreases s.len(),
{
    let dl = s.drop_last();
    if i == s.len() - 1 {
        assert(s.last() == s[i]);
        let p = visible(dl).len() as int;
        assert(0 <= p < visible(s).len() && visible(s)[p] == s[i]->Some_0);
    } else {
        lemma_visible_contains(dl, i);
        let p = choose|p: int| 0 <= p < visible(dl).len() && visible(dl)[p] == dl[i]->Some_0;
        assert(0 <= p < visible(s).len() && visible(s)[p] == s[i]->Some_0);
    }
}

/// Listing preserves creation order: two occupied slots appear in the listing
/// in the order of their (creation-ordered) slot indices, whatever deletes of
/// other ids emptied slots around them.
pub proof fn lemma_list_preserves_creation_order(s: Seq<Option<TicketView>>, i: int, j: int)
    requires
        0 <= i < j < s.len(),
        s[i] is Some,
        s[j] is Some,
    ensures
        exists|p: int, q: int|
            0 <= p < q < visible(s).len() && visible(s)[p] == s[i]->Some_0 && visible(s)[q]
                == s[j]->Some_0,
    decreases s.len(),
{
    let dl = s.drop_last();
    if j == s.len() - 1 {
        assert(s.last() == s[j]);
        lemma_visible_contains(dl, i);
        let p = choose|p: int| 0 <= p < visible(dl).len() && visible(dl)[p] == dl[i]->Some_0;
        let q = visible(dl).len() as int;
        assert(0 <= p < q < visible(s).len() && visible(s)[p] == s[i]->Some_0 && visible(s)[q]
            == s[j]->Some_0);
    } else {
        lemma_list_preserves_creation_order(dl, i, j);
        let (p, q) = choose|p: int, q: int|
            0 <= p < q < visible(dl).len() && visible(dl)[p] == dl[i]->Some_0 && visible(dl)[q]
                == dl[j]->Some_0;
        assert(0 <= p < q < visible(s).len() && visible(s)[p] == s[i]->Some_0 && visible(s)[q]
            == s[j]->Some_0);
    }
}

/// Deleting an occupied slot removes its id from every later listing — no
/// listed ticket carries the deleted id — and leaves the slot empty, so a
/// second delete of the same id fails with not-found.
pub proof fn lemma_delete_removes_ticket(s: Seq<Option<TicketView>>, id: int)
    requires
        store_wf(s),
        0 <= id < s.len(),
        s[id] is Some,
    ensures
        forall|p: int|
            0 <= p < visible(s.update(id, None)).len() ==> (#[trigger] visible(
                s.update(id, None),
            )[p]).id != id,
        s.update(id, None)[id] is None,
{
    let s2 = s.update(id, None);
    assert(store_wf(s2));
    lemma_visible_slot(s2);
    assert forall|p: int| 0 <= p < visible(s2).len() implies (#[trigger] visible(s2)[p]).id
        != id by {
        if visible(s2)[p].id == id {
            assert(s2[id] == Some(visible(s2)[p]));
        }
    }
}

/// A create request: who asked, and the title asked for. The store assigns
/// the id.
pub ghost struct TicketReq {
    pub cid: u64,
    pub title: Seq<char>,
}

/// The store after a sequence of creates, applied in the order the store's
/// lock granted them.
pub open spec fn apply_creates(s: Seq<Option<TicketView>>, reqs: Seq<TicketReq>) -> Seq<
    Option<TicketView>,
>
    decreases reqs.len(),
{
    if reqs.len() == 0 {
        s
    } else {
        apply_creates(spec_create(s, reqs[0].cid, reqs[0].title), reqs.drop_first())
    }
}

/// Creates only append: each one grows the store by exactly one slot.
pub proof fn lemma_apply_creates_len(s: Seq<Option<TicketView>>, reqs: Seq<TicketReq>)
    ensures
        apply_creates(s, reqs).len() == s.len() + reqs.len(),
    decreases reqs.len(),
{
    if reqs.len() > 0 {
        lemma_apply_creates_len(spec_create(s, reqs[0].cid, reqs[0].title), reqs.drop_first());
    }
}

/// After a sequence of creates, the old slots are untouched and the k-th
/// create filled the slot at the old length plus k with its ticket, whose id
/// is that very index.
pub proof fn lemma_apply_creates_slots(s: Seq<Option<TicketView>>, reqs: Seq<TicketReq>)
    requires
        s.len() + reqs.len() <= u64::MAX,
    ensures
        apply_creates(s, reqs).len() == s.len() + reqs.len(),
        forall|i: int| 0 <= i < s.len() ==> apply_creates(s, reqs)[i] == s[i],
        forall|i: int|
            s.len() <= i < s.len() + reqs.len() ==> apply_creates(s, reqs)[i] == Some(
                TicketView {
                    id: i as u64,
                    cid: reqs[i - s.len()].cid,
                    title: reqs[i - s.len()].title,
                },
            ),
    decreases reqs.len(),
{
    lemma_apply_creates_len(s, reqs);
    if reqs.len() > 0 {
        let s1 = spec_create(s, reqs[0].cid, reqs[0].title);
        lemma_apply_creates_slots(s1, reqs.drop_first());
        assert(apply_creates(s, reqs) == apply_creates(s1, reqs.drop_first()));
        assert(forall|i: int| 0 <= i < s.len() ==> #[trigger] s1[i] == s[i]);
        assert forall|i: int| 0 <= i < s.len() implies apply_creates(s, reqs)[i] == s[i] by {
            assert(apply_creates(s1, reqs.drop_first())[i] == s1[i]);
        }
        assert(s1[s.len() as int] == Some(
            TicketView { id: s.len() as u64, cid: reqs[0].cid, title: reqs[0].title },
        ));
        assert(forall|i: int|
            s.len() < i < s.len() + reqs.len() ==> #[trigger] reqs.drop_first()[i - s1.len()]
                == reqs[i - s.len()]);
    }
}

/// Ids from a sequence of creates strictly increase and count the prior
/// creates: the id the k-th create returns is the store length just before
/// it, which is the starting length plus k.
pub proof fn lemma_create_ids_strictly_increasing(
    s: Seq<Option<TicketView>>,
    reqs: Seq<TicketReq>,
    k1: int,
    k2: int,
)
    requires
        0 <= k1 < k2 <= reqs.len(),
    ensures
        apply_creates(s, reqs.take(k1)).len() == s.len() + k1,
        apply_creates(s, reqs.take(k2)).len() == s.len() + k2,
        apply_creates(s, reqs.take(k1)).len() < apply_creates(s, reqs.take(k2)).len(),
{
    lemma_apply_creates_len(s, reqs.take(k1));
    lemma_apply_creates_len(s, reqs.take(k2));
}

/// Creates serialized by the store's lock — in whatever order concurrent
/// callers were granted it — never duplicate ids and never lose a ticket: N
/// creates on an empty store leave N occupied slots, the k-th create returned
/// id k (the store length it saw), and the store stays well-formed, so the
/// assigned ids are exactly the distinct values below N.
pub proof fn lemma_concurrent_creates(reqs: Seq<TicketReq>)
    requires
        reqs.len() <= u64::MAX,
    ensures
        apply_creates(Seq::empty(), reqs).len() == reqs.len(),
        forall|k: int|
            0 <= k <= reqs.len() ==> (#[trigger] apply_creates(
                Seq::empty(),
                reqs.take(k),
            )).len() == k,
        store_wf(apply_creates(Seq::empty(), reqs)),
        forall|i: int| 0 <= i < reqs.len() ==> apply_creates(Seq::empty(), reqs)[i] is Some,
{
    let empty = Seq::<Option<TicketView>>::empty();
    lemma_apply_creates_slots(empty, reqs);
    assert forall|k: int| 0 <= k <= reqs.len() implies (#[trigger] apply_creates(
        empty,
        reqs.take(k),
    )).len() == k by {
        lemma_apply_creates_len(empty, reqs.take(k));
    }
}

/// The ticket store, owned by one long-lived service object. Callers that
/// share it across requests must serialize calls (one lock around the whole
/// controller); each method then is one linearized store operation.
pub struct ModelController {
    ticket_store: Vec<Option<Ticket>>,
}

impl View for ModelController {
    type V = Seq<Option<TicketView>>;

    closed spec fn view(&self) -> Seq<Option<TicketView>> {
        self.ticket_store@.map_values(|s: Option<Ticket>| slot_view(s))
    }
}

impl ModelController {
    /// A fresh, empty store. Creation never fails.
    pub fn new() -> (r: Result<Self, Error>)
        ensures
            r is Ok,
            r->Ok_0@ == Seq::<Option<TicketView>>::empty(),
            store_wf(r->Ok_0@),
    {
        let mc = Self { ticket_store: Vec::new() };
        proof {
            assert(mc@ =~= Seq::<Option<TicketView>>::empty());
        }
        Ok(mc)
    }

    /// Append a new ticket: its id is the current slot count (the number of
    /// creates ever made), its creator is the caller's user id. Never fails,
    /// never touches existing slots.
    pub fn create_ticket(&mut self, ctx: Ctx, ticket_fc: TicketForCreate) -> (r: Result<
        Ticket,
        Error,
    >)
        ensures
            r is Ok,
            r->Ok_0@ == (TicketView {
                id: old(self)@.len() as u64,
                cid: ctx@,
                title: ticket_fc.title@,
            }),
            final(self)@ == spec_create(old(self)@, ctx@, ticket_fc.title@),
            store_wf(old(self)@) ==> store_wf(final(self)@),
    {
        let id = self.ticket_store.len() as u64;
        let ticket = Ticket { id, cid: ctx.user_id(), title: ticket_fc.title };
        let copy = ticket.clone();
        self.ticket_store.push(Some(ticket));
        proof {
            assert(self@ =~= old(self)@.push(Some(copy@)));
        }
        Ok(copy)
    }

    /// List the tickets of the occupied slots, in creation order. The caller's
    /// context is taken but unused: every authenticated user sees all tickets
    /// (current behavior, not a security boundary). Never fails.
    pub fn list_tickets(&self, _ctx: Ctx) -> (r: Result<Vec<Ticket>, Error>)
        ensures
            r is Ok,
            tickets_view(r->Ok_0@) == visible(self@),
    {
        let mut out: Vec<Ticket> = Vec::new();
        let n = self.ticket_store.len();
        let mut i: usize = 0;
        proof {
            assert(tickets_view(out@) =~= visible(self@.take(0)));
        }
        while i < n
            invariant
                n == self.ticket_store@.len(),
                self@.len() == n,
                i <= n,
                tickets_view(out@) == visible(self@.take(i as int)),
            decreases n - i,
        {
            proof {
                assert(self@.take(i + 1).drop_last() =~= self@.take(i as int));
                assert(self@.take(i + 1).last() == self@[i as int]);
                assert(self@[i as int] == slot_view(self.ticket_store@[i as int]));
            }
            match &self.ticket_store[i] {
                Some(t) => {
                    let c = t.clone();
                    out.push(c);
                    proof {
                        assert(tickets_view(out@) =~= visible(self@.take(i + 1)));
                    }
                },
                None => {
                    proof {
                        assert(tickets_view(out@) =~= visible(self@.take(i + 1)));
                    }
                },
            }
            i = i + 1;
        }
        proof {
            assert(self@.take(n as int) =~= self@);
        }
        Ok(out)
    }

    /// Take the ticket out of slot `id` if that slot exists and is occupied:
    /// the slot becomes empty (it is not removed, so other ids keep their
    /// positions) and the ticket is returned. On an out-of-range or already
    /// empty id, fail with not-found carrying the requested id and leave the
    /// store unchanged. The caller's context is taken but unused: anyone may
    /// delete any ticket (current behavior).
    pub fn delete_ticket(&mut self, id: u64, _ctx: Ctx) -> (r: Result<Ticket, Error>)
        ensures
            (id < old(self)@.len() && old(self)@[id as int] is Some) ==> {
                &&& r is Ok
                &&& r->Ok_0@ == old(self)@[id as int]->Some_0
                &&& final(self)@ == old(self)@.update(id as int, None)
            },
            !(id < old(self)@.len() && old(self)@[id as int] is Some) ==> {
                &&& r matches Err(e) && e == (Error::TicketDeleteFailIdNotFound { id })
                &&& final(self)@ == old(self)@
            },
            store_wf(old(self)@) ==> store_wf(final(self)@),
    {
        if id < self.ticket_store.len() as u64 {
            let i = id as usize;
            let taken: Option<Ticket> = match &self.ticket_store[i] {
                Some(t) => Some(t.clone()),
                None => None,
            };
            match taken {
                Some(t) => {
                    self.ticket_store.set(i, None);
                    proof {
                        assert(self@ =~= old(self)@.update(id as int, None));
                    }
                    Ok(t)
                },
                None => Err(Error::TicketDeleteFailIdNotFound { id }),
            }
        } else {
            Err(Error::TicketDeleteFailIdNotFound { id })
        }
    }
}

} // verus!
