use vstd::prelude::*;

use crate::bill::{bill_check, fresh_bill, marked, open_bill, Bill, BillView};
use crate::error::SplitError;
use crate::identity::{keys_of, AuthContext, Identity};

verus! {

/// A notification published when the ledger changes.
pub enum Event {
    /// A bill was opened.
    BillCreated { bill_id: u64, total_stroops: i128 },
    /// A participant was marked as paid (again each time it is marked).
    Paid { bill_id: u64, participant: Identity },
}

pub enum EventView {
    BillCreated { bill_id: u64, total_stroops: i128 },
    Paid { bill_id: u64, participant: Seq<char> },
}

impl View for Event {
    type V = EventView;

    open spec fn view(&self) -> EventView {
        match self {
            Event::BillCreated { bill_id, total_stroops } => EventView::BillCreated {
                bill_id: *bill_id,
                total_stroops: *total_stroops,
            },
            Event::Paid { bill_id, participant } => EventView::Paid {
                bill_id: *bill_id,
                participant: participant@,
            },
        }
    }
}

/// The ledger of bills: the counter of issued ids, each bill under its id, and
/// the events published so far.
pub struct SplitContract {
    owner: Identity,
    count: u64,
    bills: Vec<Bill>,
    events: Vec<Event>,
}

/// The ledger seen as values: bill `id` is `bills[id - 1]`, and the counter is
/// `bills.len()`.
pub struct LedgerView {
    pub owner: Seq<char>,
    pub bills: Seq<BillView>,
    pub events: Seq<EventView>,
}

impl View for SplitContract {
    type V = LedgerView;

    closed spec fn view(&self) -> LedgerView {
        LedgerView {
            owner: self.owner@,
            bills: self.bills@.map_values(|b: Bill| b@),
            events: self.events@.map_values(|e: Event| e@),
        }
    }
}

impl LedgerView {
    /// The highest bill id issued so far.
    pub open spec fn count(self) -> nat {
        self.bills.len()
    }

    /// Ids run 1, 2, ... in storage order, and every bill keeps its own invariant.
    pub open spec fn wf(self) -> bool {
        &&& self.bills.len() <= u64::MAX
        &&& forall|k: int| 0 <= k < self.bills.len() ==> (#[trigger] self.bills[k]).id == k + 1
        &&& forall|k: int| 0 <= k < self.bills.len() ==> (#[trigger] self.bills[k]).wf()
    }
}

/// The bill stored under `id`, if any.
pub open spec fn lookup(s: LedgerView, id: u64) -> Result<BillView, SplitError> {
    if 1 <= id <= s.bills.len() {
        Ok(s.bills[id - 1])
    } else {
        Err(SplitError::BillNotFound)
    }
}

/// The ledger and the result after a request to open a bill.
pub open spec fn after_create(
    s: LedgerView,
    description: Seq<char>,
    total: i128,
    ps: Seq<Seq<char>>,
) -> (LedgerView, Result<u64, SplitError>) {
    match bill_check(total, ps) {
        Err(e) => (s, Err(e)),
        Ok(_) => {
            let id = (s.bills.len() + 1) as u64;
            (
                LedgerView {
                    owner: s.owner,
                    bills: s.bills.push(fresh_bill(id, description, total, ps, s.owner)),
                    events: s.events.push(EventView::BillCreated { bill_id: id, total_stroops: total }),
                },
                Ok(id),
            )
        },
    }
}

/// The ledger and the result after a request, backed by proofs of control of
/// `signers`, to mark `who` as paid on bill `id`.
pub open spec fn after_mark(s: LedgerView, id: u64, who: Seq<char>, signers: Seq<Seq<char>>) -> (
    LedgerView,
    Result<(), SplitError>,
) {
    if !signers.contains(who) {
        (s, Err(SplitError::Unauthorized))
    } else if !(1 <= id <= s.bills.len()) {
        (s, Err(SplitError::BillNotFound))
    } else {
        (
            LedgerView {
                owner: s.owner,
                bills: s.bills.update(id - 1, marked(s.bills[id - 1], who)),
                events: s.events.push(EventView::Paid { bill_id: id, participant: who }),
            },
            Ok(()),
        )
    }
}

impl SplitContract {
    pub closed spec fn wf(&self) -> bool {
        &&& self.count == self.bills.len()
        &&& self@.wf()
    }

    /// An empty ledger; `owner` is recorded as the creator of every bill.
    pub fn new(owner: Identity) -> (r: SplitContract)
        ensures
            r.wf(),
            r@ == (LedgerView {
                owner: owner@,
                bills: Seq::empty(),
                events: Seq::empty(),
            }),
    {
        let r = SplitContract { owner, count: 0, bills: Vec::new(), events: Vec::new() };
        assert(r@.bills =~= Seq::<BillView>::empty());
        assert(r@.events =~= Seq::<EventView>::empty());
        r
    }

    /// Opens a bill and returns its id, one above the highest issued so far.
    /// Fails with `InvalidAmount` on a negative total, else with
    /// `InvalidParticipants` on an empty list or one that names someone twice;
    /// a failed call changes nothing.
    pub fn create_bill(
        &mut self,
        description: String,
        total_stroops: i128,
        participants: Vec<Identity>,
    ) -> (r: Result<u64, SplitError>)
        requires
            old(self).wf(),
            old(self)@.count() < u64::MAX,
        ensures
            final(self).wf(),
            (final(self)@, r) == after_create(
                old(self)@,
                description@,
                total_stroops,
                keys_of(participants@),
            ),
    {
        let ghost ps = keys_of(participants@);
        let ghost desc = description@;
        let creator = self.owner.copy();
        match open_bill(self.count, description, total_stroops, participants, creator) {
            Err(e) => Err(e),
            Ok(bill) => {
                let id = bill.id;
                let ghost s = self@;
                self.bills.push(bill);
                self.count = id;
                self.events.push(Event::BillCreated { bill_id: id, total_stroops });
                assert(self@.bills =~= s.bills.push(fresh_bill(id, desc, total_stroops, ps, s.owner)));
                assert(self@.events =~= s.events.push(
                    EventView::BillCreated { bill_id: id, total_stroops },
                ));
                Ok(id)
            },
        }
    }

    /// Marks `participant` as paid on bill `bill_id`. Fails with `Unauthorized`
    /// unless `auth` proves control of `participant`, then with `BillNotFound`
    /// when no such bill exists; a failed call changes nothing. Marking someone
    /// already paid succeeds and publishes the event again.
    pub fn mark_paid(&mut self, bill_id: u64, participant: Identity, auth: &AuthContext) -> (r:
        Result<(), SplitError>)
        requires
            old(self).wf(),
        ensures
            final(self).wf(),
            (final(self)@, r) == after_mark(old(self)@, bill_id, participant@, auth@),
    {
        if !auth.authorizes(&participant) {
            return Err(SplitError::Unauthorized);
        }
        if bill_id == 0 || bill_id > self.count {
            return Err(SplitError::BillNotFound);
        }
        let ghost s = self@;
        let ghost who = participant@;
        let i = (bill_id - 1) as usize;
        let note = participant.copy();
        self.bills[i].record_payment(participant);
        self.events.push(Event::Paid { bill_id, participant: note });
        assert(self@.bills =~= s.bills.update(i as int, marked(s.bills[i as int], who)));
        assert(self@.events =~= s.events.push(EventView::Paid { bill_id, participant: who }));
        Ok(())
    }

    /// A copy of bill `bill_id`, or `BillNotFound` when there is none.
    pub fn get_bill(&self, bill_id: u64) -> (r: Result<Bill, SplitError>)
        requires
            self.wf(),
        ensures
            match lookup(self@, bill_id) {
                Ok(b) => r is Ok && r->Ok_0@ == b,
                Err(e) => r == Err::<Bill, SplitError>(e),
            },
    {
        if bill_id == 0 || bill_id > self.count {
            Err(SplitError::BillNotFound)
        } else {
            Ok(self.bills[(bill_id - 1) as usize].copy())
        }
    }

    /// The highest bill id issued so far; 0 before the first bill.
    pub fn get_count(&self) -> (r: u64)
        requires
            self.wf(),
        ensures
            r == self@.count(),
    {
        self.count
    }

    /// The events published so far, oldest first.
    pub fn events(&self) -> (r: &Vec<Event>)
        ensures
            r@.map_values(|e: Event| e@) == self@.events,
    {
        &self.events
    }
}

} // verus!
