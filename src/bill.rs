use vstd::prelude::*;

use crate::error::SplitError;
use crate::identity::{contains_identity, copy_identities, keys_of, Identity};

verus! {

/// One shared expense: who takes part, what it costs and who has paid so far.
pub struct Bill {
    pub id: u64,
    pub description: String,
    /// The total, in the smallest currency unit.
    pub total_stroops: i128,
    pub participants: Vec<Identity>,
    /// The identities marked as paid, each once, in the order they were marked.
    pub paid: Vec<Identity>,
    pub creator: Identity,
}

/// What a bill holds, with each handle seen as its text form.
pub struct BillView {
    pub id: u64,
    pub description: Seq<char>,
    pub total_stroops: i128,
    pub participants: Seq<Seq<char>>,
    pub paid: Seq<Seq<char>>,
    pub creator: Seq<char>,
}

impl View for Bill {
    type V = BillView;

    open spec fn view(&self) -> BillView {
        BillView {
            id: self.id,
            description: self.description@,
            total_stroops: self.total_stroops,
            participants: keys_of(self.participants@),
            paid: keys_of(self.paid@),
            creator: self.creator@,
        }
    }
}

/// A participant list is acceptable when it is non-empty and names nobody twice.
pub open spec fn participants_valid(ps: Seq<Seq<char>>) -> bool {
    ps.len() > 0 && ps.no_duplicates()
}

/// Whether a bill with this total and these participants may be opened, and if
/// not, why: a negative total is reported before a bad participant list.
pub open spec fn bill_check(total: i128, ps: Seq<Seq<char>>) -> Result<(), SplitError> {
    if total < 0 {
        Err(SplitError::InvalidAmount)
    } else if !participants_valid(ps) {
        Err(SplitError::InvalidParticipants)
    } else {
        Ok(())
    }
}

/// A newly opened bill: nobody has paid yet.
pub open spec fn fresh_bill(
    id: u64,
    description: Seq<char>,
    total: i128,
    ps: Seq<Seq<char>>,
    creator: Seq<char>,
) -> BillView {
    BillView {
        id,
        description,
        total_stroops: total,
        participants: ps,
        paid: Seq::empty(),
        creator,
    }
}

/// The bill after `who` is marked as paid; marking someone already paid changes nothing.
pub open spec fn marked(b: BillView, who: Seq<char>) -> BillView {
    if b.paid.contains(who) {
        b
    } else {
        BillView {
            id: b.id,
            description: b.description,
            total_stroops: b.total_stroops,
            participants: b.participants,
            paid: b.paid.push(who),
            creator: b.creator,
        }
    }
}

/// The payment flag of `who`: `Some(true)` once marked, absent before.
pub open spec fn paid_status(b: BillView, who: Seq<char>) -> Option<bool> {
    if b.paid.contains(who) {
        Some(true)
    } else {
        None
    }
}

impl BillView {
    /// The bill's own invariant: a non-negative total, a valid participant list,
    /// and no identity marked twice.
    pub open spec fn wf(self) -> bool {
        &&& self.total_stroops >= 0
        &&& participants_valid(self.participants)
        &&& self.paid.no_duplicates()
    }

    /// Every participant has paid.
    pub open spec fn fully_paid(self) -> bool {
        forall|k: int| 0 <= k < self.participants.len() ==> self.paid.contains(
            #[trigger] self.participants[k],
        )
    }
}

/// Whether `ps` is non-empty and names nobody twice.
pub fn valid_participants(ps: &Vec<Identity>) -> (r: bool)
    ensures
        r == participants_valid(keys_of(ps@)),
{
    let ghost keys = keys_of(ps@);
    let n = ps.len();
    if n == 0 {
        return false;
    }
    let mut i: usize = 0;
    while i < n
        invariant
            n == ps.len(),
            keys == keys_of(ps@),
            0 <= i <= n,
            forall|a: int, b: int| 0 <= a < b < i ==> keys[a] != keys[b],
        decreases n - i,
    {
        let mut j: usize = 0;
        while j < i
            invariant
                n == ps.len(),
                keys == keys_of(ps@),
                0 <= j <= i < n,
                forall|b: int| 0 <= b < j ==> keys[b] != keys[i as int],
            decreases i - j,
        {
            if ps[j].same(&ps[i]) {
                assert(keys[j as int] == keys[i as int]);
                return false;
            }
            j = j + 1;
        }
        i = i + 1;
    }
    assert(keys.no_duplicates()) by {
        assert forall|a: int, b: int| 0 <= a < keys.len() && 0 <= b < keys.len() && a != b
            implies keys[a] != keys[b] by {
            if a < b {
            } else {
            }
        }
    }
    true
}

/// Checks the inputs of a new bill: the total, then the participant list.
pub fn check_new_bill(total_stroops: i128, participants: &Vec<Identity>) -> (r: Result<
    (),
    SplitError,
>)
    ensures
        r == bill_check(total_stroops, keys_of(participants@)),
{
    if total_stroops < 0 {
        Err(SplitError::InvalidAmount)
    } else if !valid_participants(participants) {
        Err(SplitError::InvalidParticipants)
    } else {
        Ok(())
    }
}

/// Opens the bill that follows the `count` bills issued so far: its id is
/// `count + 1`, and nobody has paid it yet.
pub fn open_bill(
    count: u64,
    description: String,
    total_stroops: i128,
    participants: Vec<Identity>,
    creator: Identity,
) -> (r: Result<Bill, SplitError>)
    requires
        count < u64::MAX,
    ensures
        match bill_check(total_stroops, keys_of(participants@)) {
            Ok(_) => r is Ok && r->Ok_0@ == fresh_bill(
                (count + 1) as u64,
                description@,
                total_stroops,
                keys_of(participants@),
                creator@,
            ),
            Err(e) => r == Err::<Bill, SplitError>(e),
        },
{
    match check_new_bill(total_stroops, &participants) {
        Err(e) => Err(e),
        Ok(()) => {
            let bill = Bill {
                id: count + 1,
                description,
                total_stroops,
                participants,
                paid: Vec::new(),
                creator,
            };
            assert(bill@.paid =~= Seq::<Seq<char>>::empty());
            Ok(bill)
        },
    }
}

impl Bill {
    /// Marks `who` as paid; someone already marked stays marked once.
    pub fn record_payment(&mut self, who: Identity)
        ensures
            final(self)@ == marked(old(self)@, who@),
    {
        if !contains_identity(&self.paid, &who) {
            let ghost before = self.paid@;
            self.paid.push(who);
            assert(keys_of(self.paid@) =~= keys_of(before).push(who@));
        }
    }

    /// The payment flag of `who`: `Some(true)` once marked, `None` before.
    pub fn paid_get(&self, who: &Identity) -> (r: Option<bool>)
        ensures
            r == paid_status(self@, who@),
    {
        if contains_identity(&self.paid, who) {
            Some(true)
        } else {
            None
        }
    }

    /// Whether every participant has been marked as paid.
    pub fn is_fully_paid(&self) -> (r: bool)
        ensures
            r == self@.fully_paid(),
    {
        let ghost v = self@;
        let mut k: usize = 0;
        while k < self.participants.len()
            invariant
                v == self@,
                0 <= k <= self.participants.len(),
                forall|j: int| 0 <= j < k ==> v.paid.contains(#[trigger] v.participants[j]),
            decreases self.participants.len() - k,
        {
            if !contains_identity(&self.paid, &self.participants[k]) {
                assert(!v.paid.contains(v.participants[k as int]));
                return false;
            }
            k = k + 1;
        }
        true
    }

    /// A copy of the whole record.
    pub fn copy(&self) -> (r: Bill)
        ensures
            r@ == self@,
    {
        Bill {
            id: self.id,
            description: self.description.clone(),
            total_stroops: self.total_stroops,
            participants: copy_identities(&self.participants),
            paid: copy_identities(&self.paid),
            creator: self.creator.copy(),
        }
    }
}

} // verus!
