//! What holds of every ledger that the contract's operations have built, and
//! how a ledger relates to the ledgers it came from.

use crate::contract::SimplePaymentContract;
use crate::ledger::LedgerView;
use crate::types::{CallContextView, PaymentView};
use vstd::prelude::*;

verus! {

impl LedgerView {
    /// What the payment under `payment_id` locks of `token`: its amount while
    /// it is unclaimed, nothing otherwise.
    pub open spec fn locked_by(self, token: Seq<char>, payment_id: u64) -> int {
        if self.payments.contains_key(payment_id) && self.payments[payment_id].token == token
            && !self.payments[payment_id].claimed {
            self.payments[payment_id].amount as int
        } else {
            0
        }
    }

    /// What the payments with identifiers below `bound` lock of `token`.
    pub open spec fn locked_below(self, token: Seq<char>, bound: u64) -> int
        decreases bound,
    {
        if bound == 0 {
            0
        } else {
            self.locked_below(token, (bound - 1) as u64) + self.locked_by(
                token,
                (bound - 1) as u64,
            )
        }
    }

    /// The escrow's holdings of `token`: what the payments created so far
    /// lock of it.
    pub open spec fn custody(self, token: Seq<char>) -> int {
        self.locked_below(token, self.next_payment_id)
    }

    /// Whether the tables fit together: every payment has a positive amount
    /// and an identifier that the sequence has passed, and is listed under
    /// the user name it is addressed to; every list holds payments addressed
    /// to its user name, oldest first; every address resolves to a user name
    /// that it owns.
    pub open spec fn consistent(self) -> bool {
        &&& self.well_keyed()
        &&& forall|payment_id: u64| #[trigger]
            self.payments.contains_key(payment_id) ==> {
                &&& payment_id < self.next_payment_id
                &&& self.payments[payment_id].amount > 0
                &&& self.payments_of(self.payments[payment_id].recipient_username).contains(
                    payment_id,
                )
            }
        &&& forall|username: Seq<char>, i: int|
            0 <= i < self.payments_of(username).len() ==> {
                &&& self.payments.contains_key(#[trigger] self.payments_of(username)[i])
                &&& self.payments[self.payments_of(username)[i]].recipient_username == username
            }
        &&& forall|username: Seq<char>, i: int, j: int|
            0 <= i < j < self.payments_of(username).len() ==> #[trigger] self.payments_of(
                username,
            )[i] < #[trigger] self.payments_of(username)[j]
        &&& forall|address: Seq<char>| #[trigger]
            self.usernames_by_address.contains_key(address) ==> {
                &&& self.profiles.contains_key(self.usernames_by_address[address])
                &&& self.profiles[self.usernames_by_address[address]].address == address
            }
    }

    /// Whether this ledger keeps all that `earlier` held: every profile as it
    /// was, every payment as it was but that an unclaimed one may have become
    /// claimed, every list of payments with at most new ones at its end, and
    /// a sequence that has not gone back.
    pub open spec fn extends(self, earlier: LedgerView) -> bool {
        &&& forall|username: Seq<char>| #[trigger]
            earlier.profiles.contains_key(username) ==> self.profiles.contains_key(username)
                && self.profiles[username] == earlier.profiles[username]
        &&& forall|payment_id: u64| #[trigger]
            earlier.payments.contains_key(payment_id) ==> {
                &&& self.payments.contains_key(payment_id)
                &&& self.payments[payment_id] == (PaymentView {
                    claimed: self.payments[payment_id].claimed,
                    ..earlier.payments[payment_id]
                })
                &&& earlier.payments[payment_id].claimed ==> self.payments[payment_id].claimed
            }
        &&& forall|username: Seq<char>| #[trigger]
            earlier.payments_of(username).is_prefix_of(self.payments_of(username))
        &&& earlier.next_payment_id <= self.next_payment_id
    }
}

/// The empty ledger is consistent.
pub proof fn lemma_empty_is_consistent()
    ensures
        LedgerView::empty().consistent(),
{
}

/// Every ledger keeps all that it holds itself.
pub proof fn lemma_extends_is_reflexive(ledger: LedgerView)
    ensures
        ledger.extends(ledger),
{
}

/// Keeping all that an earlier ledger held carries over a ledger in between.
pub proof fn lemma_extends_is_transitive(
    latest: LedgerView,
    middle: LedgerView,
    earliest: LedgerView,
)
    requires
        latest.extends(middle),
        middle.extends(earliest),
    ensures
        latest.extends(earliest),
{
    assert forall|u: Seq<char>| #[trigger]
        earliest.payments_of(u).is_prefix_of(latest.payments_of(u)) by {
        assert(earliest.payments_of(u).is_prefix_of(middle.payments_of(u)));
        assert(middle.payments_of(u).is_prefix_of(latest.payments_of(u)));
    }
    assert forall|payment_id: u64| #[trigger]
        earliest.payments.contains_key(payment_id) implies {
        &&& latest.payments.contains_key(payment_id)
        &&& latest.payments[payment_id] == (PaymentView {
            claimed: latest.payments[payment_id].claimed,
            ..earliest.payments[payment_id]
        })
        &&& earliest.payments[payment_id].claimed ==> latest.payments[payment_id].claimed
    } by {}
}

/// The ledger that a registration leaves keeps all that the ledger before
/// held, and is consistent if the ledger before was.
pub proof fn lemma_register_keeps_ledger(
    ledger: LedgerView,
    ctx: CallContextView,
    caller: Seq<char>,
    username: Seq<char>,
)
    requires
        !ledger.profiles.contains_key(username),
    ensures
        SimplePaymentContract::registered(ledger, ctx, caller, username).extends(ledger),
        ledger.consistent() ==> SimplePaymentContract::registered(
            ledger,
            ctx,
            caller,
            username,
        ).consistent(),
{
    let after = SimplePaymentContract::registered(ledger, ctx, caller, username);
    assert forall|u: Seq<char>| true implies #[trigger] after.payments_of(u)
        == ledger.payments_of(u) by {}
}

/// The ledger that a new payment of a positive amount leaves is consistent
/// and keeps all that the ledger before held, if the ledger before was
/// consistent.
pub proof fn lemma_create_payment_keeps_ledger(
    ledger: LedgerView,
    ctx: CallContextView,
    sender: Seq<char>,
    recipient_username: Seq<char>,
    token: Seq<char>,
    amount: i128,
    message: Seq<char>,
)
    requires
        ledger.consistent(),
        ledger.next_payment_id < u64::MAX,
        amount > 0,
    ensures
        SimplePaymentContract::payment_created(
            ledger,
            ctx,
            sender,
            recipient_username,
            token,
            amount,
            message,
        ).consistent(),
        SimplePaymentContract::payment_created(
            ledger,
            ctx,
            sender,
            recipient_username,
            token,
            amount,
            message,
        ).extends(ledger),
{
    let after = SimplePaymentContract::payment_created(
        ledger,
        ctx,
        sender,
        recipient_username,
        token,
        amount,
        message,
    );
    let id = ledger.next_payment_id;
    let before_ids = ledger.payments_of(recipient_username);
    assert forall|payment_id: u64| #[trigger] after.payments.contains_key(payment_id) implies {
        &&& payment_id < after.next_payment_id
        &&& after.payments[payment_id].amount > 0
        &&& after.payments_of(after.payments[payment_id].recipient_username).contains(payment_id)
    } by {
        if payment_id == id {
            assert(before_ids.push(id)[before_ids.len() as int] == id);
        } else {
            let u = ledger.payments[payment_id].recipient_username;
            let i = choose|i: int|
                0 <= i < ledger.payments_of(u).len() && ledger.payments_of(u)[i] == payment_id;
            assert(after.payments_of(u)[i] == payment_id);
        }
    }
    assert forall|u: Seq<char>, i: int| 0 <= i < after.payments_of(u).len() implies {
        &&& after.payments.contains_key(#[trigger] after.payments_of(u)[i])
        &&& after.payments[after.payments_of(u)[i]].recipient_username == u
    } by {
        if u != recipient_username {
            assert(after.payments_of(u)[i] == ledger.payments_of(u)[i]);
        }
    }
}

/// The ledger in which a payment has been marked as claimed keeps all that
/// the ledger before held, and is consistent if the ledger before was.
pub proof fn lemma_claim_payment_keeps_ledger(ledger: LedgerView, payment_id: u64)
    requires
        ledger.payments.contains_key(payment_id),
    ensures
        SimplePaymentContract::payment_claimed(ledger, payment_id).extends(ledger),
        ledger.consistent() ==> SimplePaymentContract::payment_claimed(
            ledger,
            payment_id,
        ).consistent(),
{
    let after = SimplePaymentContract::payment_claimed(ledger, payment_id);
    if ledger.consistent() {
        assert forall|id: u64| #[trigger] after.payments.contains_key(id) implies {
            &&& id < after.next_payment_id
            &&& after.payments[id].amount > 0
            &&& after.payments_of(after.payments[id].recipient_username).contains(id)
        } by {}
        assert forall|u: Seq<char>, i: int| 0 <= i < after.payments_of(u).len() implies {
            &&& after.payments.contains_key(#[trigger] after.payments_of(u)[i])
            &&& after.payments[after.payments_of(u)[i]].recipient_username == u
        } by {
            assert(after.payments_of(u)[i] == ledger.payments_of(u)[i]);
        }
    }
}

} // verus!
