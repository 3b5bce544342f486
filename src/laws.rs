use vstd::prelude::*;

use crate::bill::{marked, paid_status, participants_valid, BillView};
use crate::contract::{after_create, after_mark, lookup, LedgerView};
use crate::error::SplitError;

verus! {

/// A request to open a bill: description, total, participants.
pub type CreateRequest = (Seq<char>, i128, Seq<Seq<char>>);

/// The ledger after the requests to open bills have been made one after another.
pub open spec fn after_creates(s: LedgerView, reqs: Seq<CreateRequest>) -> LedgerView
    decreases reqs.len(),
{
    if reqs.len() == 0 {
        s
    } else {
        let last = reqs.last();
        after_create(after_creates(s, reqs.drop_last()), last.0, last.1, last.2).0
    }
}

/// Opening a bill keeps the ledger's invariant, whatever the inputs.
pub proof fn lemma_create_preserves_wf(
    s: LedgerView,
    description: Seq<char>,
    total: i128,
    ps: Seq<Seq<char>>,
)
    requires
        s.wf(),
        s.count() < u64::MAX,
    ensures
        after_create(s, description, total, ps).0.wf(),
{
    let s1 = after_create(s, description, total, ps).0;
    assert forall|k: int| 0 <= k < s1.bills.len() implies (#[trigger] s1.bills[k]).id == k + 1
        && s1.bills[k].wf() by {
        if k < s.bills.len() {
            assert(s1.bills[k] == s.bills[k]);
        }
    }
}

/// Marking someone as paid keeps the ledger's invariant, whatever the inputs.
pub proof fn lemma_mark_preserves_wf(
    s: LedgerView,
    id: u64,
    who: Seq<char>,
    signers: Seq<Seq<char>>,
)
    requires
        s.wf(),
    ensures
        after_mark(s, id, who, signers).0.wf(),
{
    let s1 = after_mark(s, id, who, signers).0;
    assert forall|k: int| 0 <= k < s1.bills.len() implies (#[trigger] s1.bills[k]).id == k + 1
        && s1.bills[k].wf() by {
        if signers.contains(who) && 1 <= id <= s.bills.len() && k == id - 1 {
            let b = s.bills[k];
            if !b.paid.contains(who) {
                assert(b.paid.push(who).no_duplicates()) by {
                    assert forall|i: int, j: int|
                        0 <= i < b.paid.len() + 1 && 0 <= j < b.paid.len() + 1 && i != j
                        implies b.paid.push(who)[i] != b.paid.push(who)[j] by {
                        if i == b.paid.len() {
                            assert(b.paid[j] != who);
                        } else if j == b.paid.len() {
                            assert(b.paid[i] != who);
                        }
                    }
                }
            }
        }
    }
}

/// The counter never goes down: opening a bill raises it by one or leaves it,
/// and marking a payment leaves it as it was.
pub proof fn lemma_count_never_decreases(
    s: LedgerView,
    description: Seq<char>,
    total: i128,
    ps: Seq<Seq<char>>,
    id: u64,
    who: Seq<char>,
    signers: Seq<Seq<char>>,
)
    ensures
        after_create(s, description, total, ps).0.count() >= s.count(),
        after_create(s, description, total, ps).1 is Ok ==> after_create(
            s,
            description,
            total,
            ps,
        ).0.count() == s.count() + 1,
        after_mark(s, id, who, signers).0.count() == s.count(),
{
}

/// Ids are issued in sequence: on an empty ledger the first bill gets id 1, and
/// of two bills opened one after the other the second gets the next id up.
pub proof fn lemma_ids_increase(
    s: LedgerView,
    d1: Seq<char>,
    t1: i128,
    p1: Seq<Seq<char>>,
    d2: Seq<char>,
    t2: i128,
    p2: Seq<Seq<char>>,
)
    requires
        s.wf(),
        s.count() + 1 < u64::MAX,
        t1 >= 0,
        participants_valid(p1),
        t2 >= 0,
        participants_valid(p2),
    ensures
        ({
            let (s1, r1) = after_create(s, d1, t1, p1);
            let (s2, r2) = after_create(s1, d2, t2, p2);
            &&& r1 is Ok
            &&& r2 is Ok
            &&& r1->Ok_0 < r2->Ok_0
            &&& r2->Ok_0 == r1->Ok_0 + 1
            &&& s.count() == 0 ==> r1->Ok_0 == 1
        }),
{
}

/// A bill just opened has nobody marked as paid, and holds the participants as
/// given, in their order.
pub proof fn lemma_created_bill(
    s: LedgerView,
    description: Seq<char>,
    total: i128,
    ps: Seq<Seq<char>>,
)
    requires
        s.wf(),
        s.count() < u64::MAX,
        total >= 0,
        participants_valid(ps),
    ensures
        ({
            let (s1, r) = after_create(s, description, total, ps);
            &&& r is Ok
            &&& lookup(s1, r->Ok_0) is Ok
            &&& lookup(s1, r->Ok_0)->Ok_0.paid.len() == 0
            &&& lookup(s1, r->Ok_0)->Ok_0.participants == ps
            &&& lookup(s1, r->Ok_0)->Ok_0.description == description
            &&& lookup(s1, r->Ok_0)->Ok_0.total_stroops == total
        }),
{
}

/// After N successful openings on an empty ledger the counter is N.
pub proof fn lemma_count_after_creates(s: LedgerView, reqs: Seq<CreateRequest>)
    requires
        s.wf(),
        s.count() == 0,
        reqs.len() <= u64::MAX,
        forall|k: int| 0 <= k < reqs.len() ==> (#[trigger] reqs[k]).1 >= 0 && participants_valid(
            reqs[k].2,
        ),
    ensures
        after_creates(s, reqs).count() == reqs.len(),
        after_creates(s, reqs).wf(),
    decreases reqs.len(),
{
    if reqs.len() > 0 {
        let prefix = reqs.drop_last();
        assert forall|k: int| 0 <= k < prefix.len() implies (#[trigger] prefix[k]).1 >= 0
            && participants_valid(prefix[k].2) by {
            assert(prefix[k] == reqs[k]);
        }
        lemma_count_after_creates(s, prefix);
        let last = reqs.last();
        assert(last == reqs[reqs.len() - 1]);
        lemma_create_preserves_wf(after_creates(s, prefix), last.0, last.1, last.2);
    }
}

/// Marking the same participant twice leaves the bills as marking once did, and
/// the second call succeeds whenever the first did; the participant is then
/// marked as paid.
pub proof fn lemma_mark_idempotent(
    s: LedgerView,
    id: u64,
    who: Seq<char>,
    signers: Seq<Seq<char>>,
)
    requires
        s.wf(),
    ensures
        ({
            let (s1, r1) = after_mark(s, id, who, signers);
            let (s2, r2) = after_mark(s1, id, who, signers);
            &&& r2 == r1
            &&& s2.bills == s1.bills
            &&& s2.owner == s1.owner
            &&& r1 is Ok ==> paid_status(lookup(s2, id)->Ok_0, who) == Some(true)
        }),
{
    let (s1, r1) = after_mark(s, id, who, signers);
    if r1 is Ok {
        let b1 = marked(s.bills[id - 1], who);
        assert(b1.paid.contains(who)) by {
            if !s.bills[id - 1].paid.contains(who) {
                assert(b1.paid[b1.paid.len() - 1] == who);
            }
        }
        assert(s1.bills[id - 1] == b1);
        assert(s1.bills.update(id - 1, marked(b1, who)) =~= s1.bills);
    }
}

/// Without proof of control of `who`, marking `who` as paid fails with
/// `Unauthorized` and changes nothing.
pub proof fn lemma_mark_needs_auth(
    s: LedgerView,
    id: u64,
    who: Seq<char>,
    signers: Seq<Seq<char>>,
)
    requires
        !signers.contains(who),
    ensures
        after_mark(s, id, who, signers) == (s, Err::<(), SplitError>(SplitError::Unauthorized)),
{
}

/// Marking one participant leaves every other participant's flag, on every
/// bill, as it was.
pub proof fn lemma_mark_touches_only_target(
    s: LedgerView,
    id: u64,
    who: Seq<char>,
    signers: Seq<Seq<char>>,
    other_id: u64,
    other: Seq<char>,
)
    requires
        s.wf(),
        other_id != id || other != who,
        lookup(s, other_id) is Ok,
    ensures
        paid_status(lookup(after_mark(s, id, who, signers).0, other_id)->Ok_0, other)
            == paid_status(lookup(s, other_id)->Ok_0, other),
{
    let s1 = after_mark(s, id, who, signers).0;
    if other_id == id && signers.contains(who) {
        let b: BillView = s.bills[id - 1];
        if !b.paid.contains(who) {
            assert(b.paid.push(who).contains(other) == b.paid.contains(other)) by {
                if b.paid.push(who).contains(other) {
                    let j = choose|j: int| 0 <= j < b.paid.len() + 1 && b.paid.push(who)[j] == other;
                    assert(j < b.paid.len());
                    assert(b.paid[j] == other);
                }
                if b.paid.contains(other) {
                    let j = choose|j: int| 0 <= j < b.paid.len() && b.paid[j] == other;
                    assert(b.paid.push(who)[j] == other);
                }
            }
        }
    }
}

} // verus!
