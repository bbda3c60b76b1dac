use privacy_payment::{
    Address, CallContext, Error, Event, Ledger, Payment, SimplePaymentContract, Transfer,
    TransferOutcome,
};
use std::collections::HashMap;

const ESCROW: &str = "CESCROW";

fn account(strkey: &str) -> Address {
    Address::new(strkey.to_string())
}

fn signed_by(who: &Address, timestamp: u64) -> CallContext {
    let mut ctx = CallContext::new(timestamp);
    ctx.authorize(who.clone());
    ctx
}

fn enroll(ledger: &mut Ledger, who: &Address, name: &str, timestamp: u64) {
    let mut events = Vec::new();
    SimplePaymentContract::register(
        ledger,
        &signed_by(who, timestamp),
        who.clone(),
        name.to_string(),
        &mut events,
    )
    .unwrap();
}

/// Balances by account and token, and the one way that tokens move.
struct Bank {
    balances: HashMap<(String, String), i128>,
}

impl Bank {
    fn new() -> Self {
        Bank { balances: HashMap::new() }
    }

    fn fund(&mut self, holder: &str, token: &str, amount: i128) {
        *self.balances.entry((holder.to_string(), token.to_string())).or_insert(0) += amount;
    }

    fn balance(&self, holder: &str, token: &str) -> i128 {
        *self.balances.get(&(holder.to_string(), token.to_string())).unwrap_or(&0)
    }

    fn carry_out(&mut self, transfer: &Transfer) -> TransferOutcome {
        let (from, to, token, amount) = match transfer {
            Transfer::Deposit { from, token, amount } => {
                (from.strkey.clone(), ESCROW.to_string(), token.strkey.clone(), *amount)
            }
            Transfer::Disbursement { to, token, amount } => {
                (ESCROW.to_string(), to.strkey.clone(), token.strkey.clone(), *amount)
            }
        };
        if amount < 0 || self.balance(&from, &token) < amount {
            return TransferOutcome::Rejected;
        }
        self.fund(&from, &token, -amount);
        self.fund(&to, &token, amount);
        TransferOutcome::Completed
    }
}

/// Pays as a caller of the contract does: asks which deposit is due, has the
/// bank carry it out, and hands the outcome to the contract.
fn pay(
    ledger: &mut Ledger,
    bank: &mut Bank,
    ctx: &CallContext,
    sender: &Address,
    recipient_username: &str,
    token: &Address,
    amount: i128,
    message: &str,
    events: &mut Vec<Event>,
) -> Result<u64, Error> {
    let deposit = match SimplePaymentContract::payment_transfer(ctx, sender, token, amount) {
        Ok(transfer) => bank.carry_out(&transfer),
        Err(_) => TransferOutcome::Rejected,
    };
    SimplePaymentContract::create_payment(
        ledger,
        ctx,
        sender.clone(),
        recipient_username.to_string(),
        token.clone(),
        amount,
        message.to_string(),
        deposit,
        events,
    )
}

/// Claims as a caller of the contract does.
fn claim(
    ledger: &mut Ledger,
    bank: &mut Bank,
    ctx: &CallContext,
    recipient: &Address,
    payment_id: u64,
    events: &mut Vec<Event>,
) -> Result<(), Error> {
    let disbursement = match SimplePaymentContract::claim_transfer(ledger, ctx, recipient, payment_id)
    {
        Ok(Some(transfer)) => bank.carry_out(&transfer),
        _ => TransferOutcome::Rejected,
    };
    SimplePaymentContract::claim_payment(
        ledger,
        ctx,
        recipient.clone(),
        payment_id,
        disbursement,
        events,
    )
}

#[test]
fn payment_transfer_names_the_deposit() {
    let sender = account("GSENDER");
    let token = account("CTOKEN");
    assert_eq!(
        SimplePaymentContract::payment_transfer(&signed_by(&sender, 5), &sender, &token, 100),
        Ok(Transfer::Deposit { from: sender.clone(), token: token.clone(), amount: 100 })
    );
    assert_eq!(
        SimplePaymentContract::payment_transfer(&signed_by(&sender, 5), &sender, &token, 1),
        Ok(Transfer::Deposit { from: sender.clone(), token: token.clone(), amount: 1 })
    );
    assert_eq!(
        SimplePaymentContract::payment_transfer(
            &signed_by(&sender, 5),
            &sender,
            &token,
            i128::MAX
        ),
        Ok(Transfer::Deposit { from: sender.clone(), token: token.clone(), amount: i128::MAX })
    );
}

#[test]
fn payment_transfer_refuses_bad_calls() {
    let sender = account("GSENDER");
    let token = account("CTOKEN");
    let ctx = signed_by(&sender, 5);
    assert_eq!(
        SimplePaymentContract::payment_transfer(&ctx, &sender, &token, 0),
        Err(Error::InvalidAmount)
    );
    assert_eq!(
        SimplePaymentContract::payment_transfer(&ctx, &sender, &token, -1),
        Err(Error::InvalidAmount)
    );
    assert_eq!(
        SimplePaymentContract::payment_transfer(&ctx, &sender, &token, i128::MIN),
        Err(Error::InvalidAmount)
    );
    assert_eq!(
        SimplePaymentContract::payment_transfer(&CallContext::new(5), &sender, &token, 100),
        Err(Error::Unauthorized)
    );
    assert_eq!(
        SimplePaymentContract::payment_transfer(&CallContext::new(5), &sender, &token, 0),
        Err(Error::Unauthorized)
    );
}

#[test]
fn create_payment_records_an_unclaimed_payment() {
    let sender = account("GSENDER");
    let token = account("CTOKEN");
    let mut ledger = Ledger::new();
    let mut events = Vec::new();
    let id = SimplePaymentContract::create_payment(
        &mut ledger,
        &signed_by(&sender, 1234),
        sender.clone(),
        "alice".to_string(),
        token.clone(),
        100,
        "gift".to_string(),
        TransferOutcome::Completed,
        &mut events,
    )
    .unwrap();
    assert_eq!(id, 1);
    assert_eq!(
        SimplePaymentContract::get_payment(&ledger, id),
        Some(Payment {
            payment_id: 1,
            recipient_username: "alice".to_string(),
            sender: sender.clone(),
            token: token.clone(),
            amount: 100,
            message: "gift".to_string(),
            timestamp: 1234,
            claimed: false,
        })
    );
    assert_eq!(SimplePaymentContract::get_user_payments(&ledger, "alice".to_string()), vec![1]);
    assert_eq!(ledger.next_payment_id(), 2);
    assert_eq!(events, vec![Event::PaymentCreated { payment_id: 1, amount: 100 }]);
}

#[test]
fn payments_in_the_same_instant_get_different_identifiers() {
    let sender = account("GSENDER");
    let token = account("CTOKEN");
    let ctx = signed_by(&sender, 1234);
    let mut ledger = Ledger::new();
    let mut events = Vec::new();
    let mut ids = Vec::new();
    for amount in [10i128, 20, 30] {
        ids.push(
            SimplePaymentContract::create_payment(
                &mut ledger,
                &ctx,
                sender.clone(),
                "alice".to_string(),
                token.clone(),
                amount,
                "".to_string(),
                TransferOutcome::Completed,
                &mut events,
            )
            .unwrap(),
        );
    }
    assert_eq!(ids, vec![1, 2, 3]);
    assert_eq!(SimplePaymentContract::get_payment(&ledger, 1).unwrap().amount, 10);
    assert_eq!(SimplePaymentContract::get_payment(&ledger, 2).unwrap().amount, 20);
    assert_eq!(SimplePaymentContract::get_payment(&ledger, 3).unwrap().amount, 30);
    assert_eq!(
        events,
        vec![
            Event::PaymentCreated { payment_id: 1, amount: 10 },
            Event::PaymentCreated { payment_id: 2, amount: 20 },
            Event::PaymentCreated { payment_id: 3, amount: 30 },
        ]
    );
}

#[test]
fn create_payment_with_zero_or_negative_amount_is_invalid() {
    let sender = account("GSENDER");
    let token = account("CTOKEN");
    let mut ledger = Ledger::new();
    let mut bank = Bank::new();
    bank.fund("GSENDER", "CTOKEN", 500);
    let mut events = Vec::new();
    for amount in [0i128, -1, -100, i128::MIN] {
        assert_eq!(
            pay(
                &mut ledger,
                &mut bank,
                &signed_by(&sender, 1),
                &sender,
                "alice",
                &token,
                amount,
                "gift",
                &mut events,
            ),
            Err(Error::InvalidAmount)
        );
        assert_eq!(
            SimplePaymentContract::create_payment(
                &mut ledger,
                &signed_by(&sender, 1),
                sender.clone(),
                "alice".to_string(),
                token.clone(),
                amount,
                "gift".to_string(),
                TransferOutcome::Completed,
                &mut events,
            ),
            Err(Error::InvalidAmount)
        );
    }
    assert_eq!(bank.balance("GSENDER", "CTOKEN"), 500);
    assert_eq!(bank.balance(ESCROW, "CTOKEN"), 0);
    assert_eq!(SimplePaymentContract::get_payment(&ledger, 1), None);
    assert_eq!(
        SimplePaymentContract::get_user_payments(&ledger, "alice".to_string()),
        Vec::<u64>::new()
    );
    assert_eq!(ledger.next_payment_id(), 1);
    assert!(events.is_empty());
}

#[test]
fn create_payment_needs_the_sender_behind_the_call() {
    let sender = account("GSENDER");
    let mallory = account("GMALLORY");
    let token = account("CTOKEN");
    let mut ledger = Ledger::new();
    let mut events = Vec::new();
    assert_eq!(
        SimplePaymentContract::create_payment(
            &mut ledger,
            &signed_by(&mallory, 1),
            sender.clone(),
            "alice".to_string(),
            token.clone(),
            100,
            "gift".to_string(),
            TransferOutcome::Completed,
            &mut events,
        ),
        Err(Error::Unauthorized)
    );
    assert_eq!(SimplePaymentContract::get_payment(&ledger, 1), None);
    assert_eq!(ledger.next_payment_id(), 1);
    assert!(events.is_empty());
}

#[test]
fn rejected_deposit_leaves_no_payment() {
    let sender = account("GSENDER");
    let token = account("CTOKEN");
    let mut ledger = Ledger::new();
    let mut bank = Bank::new();
    bank.fund("GSENDER", "CTOKEN", 99);
    let mut events = Vec::new();
    assert_eq!(
        pay(
            &mut ledger,
            &mut bank,
            &signed_by(&sender, 1),
            &sender,
            "alice",
            &token,
            100,
            "gift",
            &mut events,
        ),
        Err(Error::TransferFailed)
    );
    assert_eq!(bank.balance("GSENDER", "CTOKEN"), 99);
    assert_eq!(bank.balance(ESCROW, "CTOKEN"), 0);
    assert_eq!(SimplePaymentContract::get_payment(&ledger, 1), None);
    assert_eq!(
        SimplePaymentContract::get_user_payments(&ledger, "alice".to_string()),
        Vec::<u64>::new()
    );
    assert_eq!(ledger.next_payment_id(), 1);
    assert!(events.is_empty());
    assert_eq!(
        pay(
            &mut ledger,
            &mut bank,
            &signed_by(&sender, 2),
            &sender,
            "alice",
            &token,
            99,
            "gift",
            &mut events,
        ),
        Ok(1)
    );
}

#[test]
fn deposit_raises_the_escrow_balance_by_the_amount() {
    let sender = account("GSENDER");
    let token = account("CTOKEN");
    let other = account("COTHER");
    let mut ledger = Ledger::new();
    let mut bank = Bank::new();
    bank.fund("GSENDER", "CTOKEN", 1000);
    bank.fund("GSENDER", "COTHER", 1000);
    let mut events = Vec::new();
    let ctx = signed_by(&sender, 1);
    let first =
        pay(&mut ledger, &mut bank, &ctx, &sender, "alice", &token, 250, "a", &mut events).unwrap();
    assert_eq!(bank.balance(ESCROW, "CTOKEN"), 250);
    assert_eq!(bank.balance(ESCROW, "COTHER"), 0);
    assert!(!SimplePaymentContract::get_payment(&ledger, first).unwrap().claimed);
    let second =
        pay(&mut ledger, &mut bank, &ctx, &sender, "bob", &token, 50, "b", &mut events).unwrap();
    assert_eq!(bank.balance(ESCROW, "CTOKEN"), 300);
    assert!(!SimplePaymentContract::get_payment(&ledger, second).unwrap().claimed);
    pay(&mut ledger, &mut bank, &ctx, &sender, "bob", &other, 7, "c", &mut events).unwrap();
    assert_eq!(bank.balance(ESCROW, "CTOKEN"), 300);
    assert_eq!(bank.balance(ESCROW, "COTHER"), 7);
    assert_eq!(bank.balance("GSENDER", "CTOKEN"), 700);
    assert_eq!(bank.balance("GSENDER", "COTHER"), 993);
}

#[test]
fn round_trip_moves_the_amount_from_sender_to_recipient() {
    let alice = account("GALICE");
    let sender = account("GSENDER");
    let token = account("TOKEN");
    let mut ledger = Ledger::new();
    let mut bank = Bank::new();
    bank.fund("GSENDER", "TOKEN", 1000);
    bank.fund("GALICE", "TOKEN", 5);
    enroll(&mut ledger, &alice, "alice", 1);
    let mut events = Vec::new();
    let id = pay(
        &mut ledger,
        &mut bank,
        &signed_by(&sender, 2),
        &sender,
        "alice",
        &token,
        100,
        "gift",
        &mut events,
    )
    .unwrap();
    assert_eq!(bank.balance("GSENDER", "TOKEN"), 900);
    assert_eq!(bank.balance(ESCROW, "TOKEN"), 100);
    assert_eq!(
        claim(&mut ledger, &mut bank, &signed_by(&alice, 3), &alice, id, &mut events),
        Ok(())
    );
    assert_eq!(bank.balance("GALICE", "TOKEN"), 105);
    assert_eq!(bank.balance("GSENDER", "TOKEN"), 900);
    assert_eq!(bank.balance(ESCROW, "TOKEN"), 0);
    assert!(SimplePaymentContract::get_payment(&ledger, id).unwrap().claimed);
    assert_eq!(
        events,
        vec![
            Event::PaymentCreated { payment_id: id, amount: 100 },
            Event::PaymentClaimed { payment_id: id },
        ]
    );
}

#[test]
fn claim_transfer_names_the_disbursement() {
    let alice = account("GALICE");
    let sender = account("GSENDER");
    let token = account("CTOKEN");
    let mut ledger = Ledger::new();
    enroll(&mut ledger, &alice, "alice", 1);
    let mut events = Vec::new();
    let id = SimplePaymentContract::create_payment(
        &mut ledger,
        &signed_by(&sender, 2),
        sender.clone(),
        "alice".to_string(),
        token.clone(),
        42,
        "gift".to_string(),
        TransferOutcome::Completed,
        &mut events,
    )
    .unwrap();
    assert_eq!(
        SimplePaymentContract::claim_transfer(&ledger, &signed_by(&alice, 3), &alice, id),
        Ok(Some(Transfer::Disbursement { to: alice.clone(), token: token.clone(), amount: 42 }))
    );
    assert_eq!(
        SimplePaymentContract::claim_transfer(&ledger, &signed_by(&alice, 3), &alice, id + 1),
        Ok(None)
    );
    assert_eq!(
        SimplePaymentContract::claim_transfer(&ledger, &CallContext::new(3), &alice, id),
        Err(Error::Unauthorized)
    );
}

#[test]
fn second_claim_changes_nothing() {
    let alice = account("GALICE");
    let sender = account("GSENDER");
    let token = account("CTOKEN");
    let mut ledger = Ledger::new();
    let mut bank = Bank::new();
    bank.fund("GSENDER", "CTOKEN", 1000);
    enroll(&mut ledger, &alice, "alice", 1);
    let mut events = Vec::new();
    let ctx = signed_by(&sender, 2);
    let id =
        pay(&mut ledger, &mut bank, &ctx, &sender, "alice", &token, 100, "one", &mut events).unwrap();
    pay(&mut ledger, &mut bank, &ctx, &sender, "alice", &token, 60, "two", &mut events).unwrap();
    let by_alice = signed_by(&alice, 3);
    assert_eq!(claim(&mut ledger, &mut bank, &by_alice, &alice, id, &mut events), Ok(()));
    assert_eq!(bank.balance("GALICE", "CTOKEN"), 100);
    assert_eq!(bank.balance(ESCROW, "CTOKEN"), 60);
    let claimed = SimplePaymentContract::get_payment(&ledger, id).unwrap();
    assert!(claimed.claimed);
    let events_after_first = events.len();
    assert_eq!(SimplePaymentContract::claim_transfer(&ledger, &by_alice, &alice, id), Ok(None));
    assert_eq!(claim(&mut ledger, &mut bank, &by_alice, &alice, id, &mut events), Ok(()));
    assert_eq!(
        SimplePaymentContract::claim_payment(
            &mut ledger,
            &by_alice,
            alice.clone(),
            id,
            TransferOutcome::Completed,
            &mut events,
        ),
        Ok(())
    );
    assert_eq!(bank.balance("GALICE", "CTOKEN"), 100);
    assert_eq!(bank.balance(ESCROW, "CTOKEN"), 60);
    assert_eq!(SimplePaymentContract::get_payment(&ledger, id), Some(claimed));
    assert_eq!(events.len(), events_after_first);
}

#[test]
fn claim_keeps_every_other_field_of_the_payment() {
    let alice = account("GALICE");
    let sender = account("GSENDER");
    let token = account("CTOKEN");
    let mut ledger = Ledger::new();
    enroll(&mut ledger, &alice, "alice", 1);
    let mut events = Vec::new();
    let id = SimplePaymentContract::create_payment(
        &mut ledger,
        &signed_by(&sender, 20),
        sender.clone(),
        "alice".to_string(),
        token.clone(),
        100,
        "gift".to_string(),
        TransferOutcome::Completed,
        &mut events,
    )
    .unwrap();
    SimplePaymentContract::claim_payment(
        &mut ledger,
        &signed_by(&alice, 30),
        alice.clone(),
        id,
        TransferOutcome::Completed,
        &mut events,
    )
    .unwrap();
    assert_eq!(
        SimplePaymentContract::get_payment(&ledger, id),
        Some(Payment {
            payment_id: id,
            recipient_username: "alice".to_string(),
            sender,
            token,
            amount: 100,
            message: "gift".to_string(),
            timestamp: 20,
            claimed: true,
        })
    );
    assert_eq!(SimplePaymentContract::get_user_payments(&ledger, "alice".to_string()), vec![id]);
    assert_eq!(ledger.next_payment_id(), id + 1);
}

#[test]
fn claim_of_a_payment_never_created_is_a_silent_no_op() {
    let alice = account("GALICE");
    let mut ledger = Ledger::new();
    let mut bank = Bank::new();
    bank.fund(ESCROW, "CTOKEN", 77);
    enroll(&mut ledger, &alice, "alice", 1);
    let mut events = Vec::new();
    for id in [0u64, 1, 999, u64::MAX] {
        assert_eq!(
            claim(&mut ledger, &mut bank, &signed_by(&alice, 2), &alice, id, &mut events),
            Ok(())
        );
        assert_eq!(
            SimplePaymentContract::claim_payment(
                &mut ledger,
                &signed_by(&alice, 2),
                alice.clone(),
                id,
                TransferOutcome::Completed,
                &mut events,
            ),
            Ok(())
        );
        assert_eq!(SimplePaymentContract::get_payment(&ledger, id), None);
    }
    assert_eq!(bank.balance(ESCROW, "CTOKEN"), 77);
    assert_eq!(bank.balance("GALICE", "CTOKEN"), 0);
    assert!(events.is_empty());
}

#[test]
fn only_the_owner_of_the_name_can_claim() {
    let alice = account("GALICE");
    let mallory = account("GMALLORY");
    let sender = account("GSENDER");
    let token = account("CTOKEN");
    let mut ledger = Ledger::new();
    let mut bank = Bank::new();
    bank.fund("GSENDER", "CTOKEN", 1000);
    enroll(&mut ledger, &alice, "alice", 1);
    enroll(&mut ledger, &mallory, "mallory", 1);
    let mut events = Vec::new();
    let id = pay(
        &mut ledger,
        &mut bank,
        &signed_by(&sender, 2),
        &sender,
        "alice",
        &token,
        100,
        "gift",
        &mut events,
    )
    .unwrap();
    assert_eq!(
        claim(&mut ledger, &mut bank, &signed_by(&mallory, 3), &mallory, id, &mut events),
        Err(Error::Unauthorized)
    );
    assert_eq!(
        SimplePaymentContract::claim_payment(
            &mut ledger,
            &signed_by(&mallory, 3),
            mallory.clone(),
            id,
            TransferOutcome::Completed,
            &mut events,
        ),
        Err(Error::Unauthorized)
    );
    assert_eq!(
        claim(&mut ledger, &mut bank, &signed_by(&mallory, 3), &alice, id, &mut events),
        Err(Error::Unauthorized)
    );
    assert_eq!(
        claim(&mut ledger, &mut bank, &signed_by(&sender, 3), &sender, id, &mut events),
        Err(Error::Unauthorized)
    );
    assert!(!SimplePaymentContract::get_payment(&ledger, id).unwrap().claimed);
    assert_eq!(bank.balance(ESCROW, "CTOKEN"), 100);
    assert_eq!(bank.balance("GMALLORY", "CTOKEN"), 0);
    assert_eq!(
        claim(&mut ledger, &mut bank, &signed_by(&alice, 4), &alice, id, &mut events),
        Ok(())
    );
    assert_eq!(bank.balance("GALICE", "CTOKEN"), 100);
}

#[test]
fn payment_to_an_unregistered_name_waits_for_its_owner() {
    let alice = account("GALICE");
    let sender = account("GSENDER");
    let token = account("CTOKEN");
    let mut ledger = Ledger::new();
    let mut bank = Bank::new();
    bank.fund("GSENDER", "CTOKEN", 1000);
    let mut events = Vec::new();
    let id = pay(
        &mut ledger,
        &mut bank,
        &signed_by(&sender, 2),
        &sender,
        "alice",
        &token,
        100,
        "gift",
        &mut events,
    )
    .unwrap();
    assert_eq!(
        claim(&mut ledger, &mut bank, &signed_by(&alice, 3), &alice, id, &mut events),
        Err(Error::NotFound)
    );
    assert!(!SimplePaymentContract::get_payment(&ledger, id).unwrap().claimed);
    assert_eq!(bank.balance(ESCROW, "CTOKEN"), 100);
    enroll(&mut ledger, &alice, "alice", 4);
    assert_eq!(
        claim(&mut ledger, &mut bank, &signed_by(&alice, 5), &alice, id, &mut events),
        Ok(())
    );
    assert_eq!(bank.balance("GALICE", "CTOKEN"), 100);
    assert_eq!(bank.balance(ESCROW, "CTOKEN"), 0);
}

#[test]
fn rejected_disbursement_leaves_the_payment_unclaimed() {
    let alice = account("GALICE");
    let sender = account("GSENDER");
    let token = account("CTOKEN");
    let mut ledger = Ledger::new();
    enroll(&mut ledger, &alice, "alice", 1);
    let mut events = Vec::new();
    let id = SimplePaymentContract::create_payment(
        &mut ledger,
        &signed_by(&sender, 2),
        sender.clone(),
        "alice".to_string(),
        token.clone(),
        100,
        "gift".to_string(),
        TransferOutcome::Completed,
        &mut events,
    )
    .unwrap();
    let before = SimplePaymentContract::get_payment(&ledger, id);
    assert_eq!(
        SimplePaymentContract::claim_payment(
            &mut ledger,
            &signed_by(&alice, 3),
            alice.clone(),
            id,
            TransferOutcome::Rejected,
            &mut events,
        ),
        Err(Error::TransferFailed)
    );
    assert_eq!(SimplePaymentContract::get_payment(&ledger, id), before);
    assert_eq!(events.len(), 1);
    assert_eq!(
        SimplePaymentContract::claim_payment(
            &mut ledger,
            &signed_by(&alice, 4),
            alice.clone(),
            id,
            TransferOutcome::Completed,
            &mut events,
        ),
        Ok(())
    );
    assert!(SimplePaymentContract::get_payment(&ledger, id).unwrap().claimed);
}

#[test]
fn claim_needs_the_recipient_behind_the_call() {
    let alice = account("GALICE");
    let sender = account("GSENDER");
    let token = account("CTOKEN");
    let mut ledger = Ledger::new();
    enroll(&mut ledger, &alice, "alice", 1);
    let mut events = Vec::new();
    let id = SimplePaymentContract::create_payment(
        &mut ledger,
        &signed_by(&sender, 2),
        sender.clone(),
        "alice".to_string(),
        token.clone(),
        100,
        "gift".to_string(),
        TransferOutcome::Completed,
        &mut events,
    )
    .unwrap();
    for payment_id in [id, id + 1] {
        assert_eq!(
            SimplePaymentContract::claim_payment(
                &mut ledger,
                &CallContext::new(3),
                alice.clone(),
                payment_id,
                TransferOutcome::Completed,
                &mut events,
            ),
            Err(Error::Unauthorized)
        );
    }
    assert!(!SimplePaymentContract::get_payment(&ledger, id).unwrap().claimed);
}

#[test]
fn user_payments_are_listed_in_creation_order() {
    let alice = account("GALICE");
    let sender = account("GSENDER");
    let token = account("CTOKEN");
    let ctx = signed_by(&sender, 2);
    let mut ledger = Ledger::new();
    let mut events = Vec::new();
    let mut expect_alice = Vec::new();
    let mut expect_bob = Vec::new();
    for (name, amount) in [("alice", 1i128), ("bob", 2), ("alice", 3), ("alice", 4), ("bob", 5)] {
        let id = SimplePaymentContract::create_payment(
            &mut ledger,
            &ctx,
            sender.clone(),
            name.to_string(),
            token.clone(),
            amount,
            "".to_string(),
            TransferOutcome::Completed,
            &mut events,
        )
        .unwrap();
        if name == "alice" {
            expect_alice.push(id);
        } else {
            expect_bob.push(id);
        }
    }
    assert_eq!(expect_alice, vec![1, 3, 4]);
    assert_eq!(expect_bob, vec![2, 5]);
    let first = SimplePaymentContract::get_user_payments(&ledger, "alice".to_string());
    let again = SimplePaymentContract::get_user_payments(&ledger, "alice".to_string());
    assert_eq!(first, expect_alice);
    assert_eq!(again, expect_alice);
    assert_eq!(
        SimplePaymentContract::get_user_payments(&ledger, "bob".to_string()),
        expect_bob
    );
    enroll(&mut ledger, &alice, "alice", 3);
    assert_eq!(
        SimplePaymentContract::get_user_payments(&ledger, "alice".to_string()),
        expect_alice
    );
    SimplePaymentContract::claim_payment(
        &mut ledger,
        &signed_by(&alice, 4),
        alice.clone(),
        3,
        TransferOutcome::Completed,
        &mut events,
    )
    .unwrap();
    assert_eq!(
        SimplePaymentContract::get_user_payments(&ledger, "alice".to_string()),
        expect_alice
    );
    assert_eq!(
        SimplePaymentContract::get_user_payments(&ledger, "bob".to_string()),
        expect_bob
    );
    assert_eq!(
        SimplePaymentContract::get_user_payments(&ledger, "carol".to_string()),
        Vec::<u64>::new()
    );
}

#[test]
fn claim_goes_to_the_owner_of_the_name_not_to_its_latest_name() {
    let alice = account("GALICE");
    let sender = account("GSENDER");
    let token = account("CTOKEN");
    let mut ledger = Ledger::new();
    enroll(&mut ledger, &alice, "alice", 1);
    enroll(&mut ledger, &alice, "alice2", 2);
    let mut events = Vec::new();
    let id = SimplePaymentContract::create_payment(
        &mut ledger,
        &signed_by(&sender, 3),
        sender.clone(),
        "alice".to_string(),
        token.clone(),
        100,
        "gift".to_string(),
        TransferOutcome::Completed,
        &mut events,
    )
    .unwrap();
    assert_eq!(
        SimplePaymentContract::claim_transfer(&ledger, &signed_by(&alice, 4), &alice, id),
        Ok(Some(Transfer::Disbursement { to: alice.clone(), token, amount: 100 }))
    );
}
