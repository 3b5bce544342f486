use split::bill::{check_new_bill, open_bill, valid_participants};
use split::contract::{Event, SplitContract};
use split::error::SplitError;
use split::identity::{AuthContext, Identity};

fn who(key: &str) -> Identity {
    Identity::new(String::from(key))
}

fn ledger() -> SplitContract {
    SplitContract::new(who("CONTRACT"))
}

fn signed_by(key: &str) -> AuthContext {
    AuthContext::new(vec![who(key)])
}

#[test]
fn test_create_and_mark_paid() {
    let mut c = ledger();
    let alice = who("ALICE");
    let bob = who("BOB");
    let bill_id = c
        .create_bill(String::from("Dinner"), 1_000_000i128, vec![alice.copy(), bob.copy()])
        .unwrap();
    assert_eq!(bill_id, 1);
    c.mark_paid(bill_id, alice.copy(), &signed_by("ALICE")).unwrap();
    let bill = c.get_bill(bill_id).unwrap();
    assert_eq!(bill.paid_get(&alice).unwrap(), true);
}

#[test]
fn ids_start_at_one_and_increase() {
    let mut c = ledger();
    let a = c.create_bill(String::from("a"), 10, vec![who("A")]).unwrap();
    let b = c.create_bill(String::from("b"), 0, vec![who("A"), who("B")]).unwrap();
    let d = c.create_bill(String::from("c"), 7, vec![who("C")]).unwrap();
    assert_eq!((a, b, d), (1, 2, 3));
}

#[test]
fn new_bill_has_no_payments_and_keeps_participant_order() {
    let mut c = ledger();
    let id = c
        .create_bill(String::from("Rent"), 900, vec![who("Z"), who("A"), who("M")])
        .unwrap();
    let bill = c.get_bill(id).unwrap();
    assert_eq!(bill.id, id);
    assert_eq!(bill.description, "Rent");
    assert_eq!(bill.total_stroops, 900);
    assert!(bill.paid.is_empty());
    let keys: Vec<&str> = bill.participants.iter().map(|p| p.key().as_str()).collect();
    assert_eq!(keys, vec!["Z", "A", "M"]);
    assert_eq!(bill.creator.key(), "CONTRACT");
    assert_eq!(bill.paid_get(&who("Z")), None);
}

#[test]
fn count_follows_successful_creations() {
    let mut c = ledger();
    assert_eq!(c.get_count(), 0);
    for n in 1..=5u64 {
        c.create_bill(String::from("x"), 1, vec![who("A")]).unwrap();
        assert_eq!(c.get_count(), n);
    }
    assert!(c.create_bill(String::from("bad"), -5, vec![who("A")]).is_err());
    assert!(c.create_bill(String::from("bad"), 5, vec![]).is_err());
    assert_eq!(c.get_count(), 5);
}

#[test]
fn mark_paid_twice_is_idempotent() {
    let mut c = ledger();
    let id = c.create_bill(String::from("Taxi"), 40, vec![who("A"), who("B")]).unwrap();
    assert_eq!(c.mark_paid(id, who("A"), &signed_by("A")), Ok(()));
    let once = c.get_bill(id).unwrap();
    assert_eq!(c.mark_paid(id, who("A"), &signed_by("A")), Ok(()));
    let twice = c.get_bill(id).unwrap();
    assert_eq!(once.paid.len(), 1);
    assert_eq!(twice.paid.len(), 1);
    assert!(once.paid == twice.paid);
    assert_eq!(twice.paid_get(&who("A")), Some(true));
    assert_eq!(c.events().len(), 3);
}

#[test]
fn mark_paid_without_proof_is_unauthorized() {
    let mut c = ledger();
    let id = c.create_bill(String::from("Lunch"), 40, vec![who("A"), who("B")]).unwrap();
    assert_eq!(
        c.mark_paid(id, who("A"), &AuthContext::anonymous()),
        Err(SplitError::Unauthorized)
    );
    assert_eq!(c.mark_paid(id, who("A"), &signed_by("B")), Err(SplitError::Unauthorized));
    assert_eq!(c.mark_paid(999, who("A"), &signed_by("B")), Err(SplitError::Unauthorized));
    assert_eq!(c.get_bill(id).unwrap().paid_get(&who("A")), None);
    assert_eq!(c.events().len(), 1);
}

#[test]
fn negative_amount_is_rejected() {
    let mut c = ledger();
    assert_eq!(
        c.create_bill(String::from("x"), -1, vec![who("A")]),
        Err(SplitError::InvalidAmount)
    );
    assert_eq!(c.create_bill(String::from("x"), -1, vec![]), Err(SplitError::InvalidAmount));
    assert_eq!(c.get_count(), 0);
    assert!(c.events().is_empty());
}

#[test]
fn empty_participants_are_rejected() {
    let mut c = ledger();
    assert_eq!(
        c.create_bill(String::from("x"), 10, vec![]),
        Err(SplitError::InvalidParticipants)
    );
    assert_eq!(c.get_count(), 0);
}

#[test]
fn duplicate_participants_are_rejected() {
    let mut c = ledger();
    assert_eq!(
        c.create_bill(String::from("x"), 10, vec![who("A"), who("B"), who("A")]),
        Err(SplitError::InvalidParticipants)
    );
    assert_eq!(c.get_count(), 0);
    assert!(valid_participants(&vec![who("A"), who("B")]));
    assert!(!valid_participants(&vec![who("B"), who("B")]));
    assert_eq!(check_new_bill(0, &vec![who("A")]), Ok(()));
}

#[test]
fn unknown_bill_is_not_found() {
    let mut c = ledger();
    assert!(matches!(c.get_bill(999), Err(SplitError::BillNotFound)));
    assert_eq!(c.mark_paid(999, who("A"), &signed_by("A")), Err(SplitError::BillNotFound));
    c.create_bill(String::from("x"), 10, vec![who("A")]).unwrap();
    assert!(matches!(c.get_bill(0), Err(SplitError::BillNotFound)));
    assert!(matches!(c.get_bill(2), Err(SplitError::BillNotFound)));
    assert!(c.get_bill(1).is_ok());
}

#[test]
fn dinner_scenario() {
    let mut c = ledger();
    let alice = who("ALICE");
    let bob = who("BOB");
    let id = c
        .create_bill(String::from("Dinner"), 1_000_000, vec![alice.copy(), bob.copy()])
        .unwrap();
    assert_eq!(id, 1);
    assert_eq!(c.mark_paid(1, alice.copy(), &signed_by("ALICE")), Ok(()));
    let events = c.events();
    assert_eq!(events.len(), 2);
    assert!(matches!(
        events[0],
        Event::BillCreated { bill_id: 1, total_stroops: 1_000_000 }
    ));
    match &events[1] {
        Event::Paid { bill_id, participant } => {
            assert_eq!(*bill_id, 1);
            assert!(*participant == alice);
        }
        _ => panic!("expected a payment event"),
    }
    let bill = c.get_bill(1).unwrap();
    assert_eq!(bill.paid_get(&alice), Some(true));
    assert_eq!(bill.paid_get(&bob), None);
    assert_eq!(c.get_count(), 1);
}

#[test]
fn separate_bills_keep_separate_payments() {
    let mut c = ledger();
    let first = c.create_bill(String::from("one"), 5, vec![who("A"), who("B")]).unwrap();
    let second = c.create_bill(String::from("two"), 6, vec![who("A"), who("B")]).unwrap();
    c.mark_paid(second, who("B"), &signed_by("B")).unwrap();
    assert_eq!(c.get_bill(first).unwrap().paid_get(&who("B")), None);
    assert_eq!(c.get_bill(second).unwrap().paid_get(&who("B")), Some(true));
    assert_eq!(c.get_bill(second).unwrap().paid_get(&who("A")), None);
    assert_eq!(c.get_bill(first).unwrap().description, "one");
}

#[test]
fn fully_paid_once_everyone_is_marked() {
    let mut c = ledger();
    let id = c.create_bill(String::from("Trip"), 300, vec![who("A"), who("B")]).unwrap();
    assert!(!c.get_bill(id).unwrap().is_fully_paid());
    c.mark_paid(id, who("A"), &signed_by("A")).unwrap();
    assert!(!c.get_bill(id).unwrap().is_fully_paid());
    c.mark_paid(id, who("B"), &AuthContext::new(vec![who("X"), who("B")])).unwrap();
    assert!(c.get_bill(id).unwrap().is_fully_paid());
}

#[test]
fn non_participant_may_be_marked() {
    let mut c = ledger();
    let id = c.create_bill(String::from("Gift"), 20, vec![who("A")]).unwrap();
    assert_eq!(c.mark_paid(id, who("Q"), &signed_by("Q")), Ok(()));
    assert_eq!(c.get_bill(id).unwrap().paid_get(&who("Q")), Some(true));
}

#[test]
fn open_bill_takes_next_id() {
    let bill = match open_bill(41, String::from("d"), 3, vec![who("A")], who("C")) {
        Ok(b) => b,
        Err(_) => panic!("expected a bill"),
    };
    assert_eq!(bill.id, 42);
    assert!(bill.paid.is_empty());
    assert!(matches!(
        open_bill(41, String::from("d"), 3, vec![], who("C")),
        Err(SplitError::InvalidParticipants)
    ));
    let mut b = bill.copy();
    b.record_payment(who("A"));
    b.record_payment(who("A"));
    assert_eq!(b.paid.len(), 1);
    assert_eq!(bill.paid.len(), 0);
}
