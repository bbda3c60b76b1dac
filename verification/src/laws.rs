//! What the operations of the contract guarantee to the parties, stated over
//! the ledger's mathematical value.

use crate::contract::SimplePaymentContract;
use crate::ledger::LedgerView;
use crate::types::{CallContextView, Error, TransferOutcome, TransferView};
use vstd::prelude::*;

verus! {

/// Two ledgers in which the payments below `bound` lock the same of `token`
/// hold the same of it below `bound`.
pub proof fn lemma_locked_below_agrees(a: LedgerView, b: LedgerView, token: Seq<char>, bound: u64)
    requires
        forall|payment_id: u64|
            payment_id < bound ==> #[trigger] a.locked_by(token, payment_id) == b.locked_by(
                token,
                payment_id,
            ),
    ensures
        a.locked_below(token, bound) == b.locked_below(token, bound),
    decreases bound,
{
    if bound > 0 {
        lemma_locked_below_agrees(a, b, token, (bound - 1) as u64);
    }
}

/// Where one payment below `bound` locks less of `token` in `b` than in `a`
/// and every other payment locks the same, `b` holds that much less of it.
pub proof fn lemma_locked_below_released(
    a: LedgerView,
    b: LedgerView,
    token: Seq<char>,
    bound: u64,
    released: u64,
)
    requires
        released < bound,
        forall|payment_id: u64|
            payment_id < bound && payment_id != released ==> #[trigger] a.locked_by(
                token,
                payment_id,
            ) == b.locked_by(token, payment_id),
    ensures
        b.locked_below(token, bound) == a.locked_below(token, bound) - a.locked_by(
            token,
            released,
        ) + b.locked_by(token, released),
    decreases bound,
{
    if bound - 1 == released {
        lemma_locked_below_agrees(a, b, token, (bound - 1) as u64);
    } else {
        lemma_locked_below_released(a, b, token, (bound - 1) as u64, released);
    }
}

/// Once a user name is registered it is no longer available: every later
/// registration of it fails, and a caller who stands behind the call is told
/// that the name is taken.
pub proof fn lemma_registered_name_is_taken(
    ledger: LedgerView,
    ctx: CallContextView,
    caller: Seq<char>,
    username: Seq<char>,
    next_ctx: CallContextView,
    next_caller: Seq<char>,
)
    requires
        SimplePaymentContract::register_result(ledger, ctx, caller, username) is Ok,
    ensures
        ({
            let after = SimplePaymentContract::registered(ledger, ctx, caller, username);
            let next = SimplePaymentContract::register_result(
                after,
                next_ctx,
                next_caller,
                username,
            );
            &&& after.profiles.contains_key(username)
            &&& next is Err
            &&& next_ctx.authorized.contains(next_caller) ==> next == Err::<(), Error>(
                Error::UsernameTaken,
            )
        }),
{
}

/// Right after a registration, the address in the new profile resolves to
/// the registered user name.
pub proof fn lemma_registered_address_resolves(
    ledger: LedgerView,
    ctx: CallContextView,
    caller: Seq<char>,
    username: Seq<char>,
)
    requires
        SimplePaymentContract::register_result(ledger, ctx, caller, username) is Ok,
    ensures
        ({
            let after = SimplePaymentContract::registered(ledger, ctx, caller, username);
            &&& after.profiles.contains_key(username)
            &&& after.profiles[username].address == caller
            &&& after.usernames_by_address.contains_key(after.profiles[username].address)
            &&& after.usernames_by_address[after.profiles[username].address] == username
        }),
{
}

/// A recorded payment is unclaimed, raises the escrow's holdings of its token
/// by its amount, and leaves the holdings of every other token as they were.
pub proof fn lemma_create_payment_adds_to_custody(
    ledger: LedgerView,
    ctx: CallContextView,
    sender: Seq<char>,
    recipient_username: Seq<char>,
    token: Seq<char>,
    amount: i128,
    message: Seq<char>,
    deposit: TransferOutcome,
)
    requires
        ledger.next_payment_id < u64::MAX,
        SimplePaymentContract::create_payment_result(ledger, ctx, sender, token, amount, deposit)
            is Ok,
    ensures
        ({
            let after = SimplePaymentContract::payment_created(
                ledger,
                ctx,
                sender,
                recipient_username,
                token,
                amount,
                message,
            );
            &&& amount > 0
            &&& deposit == TransferOutcome::Completed
            &&& SimplePaymentContract::payment_transfer_result(ctx, sender, token, amount) == Ok::<
                TransferView,
                Error,
            >(TransferView::Deposit { from: sender, token, amount })
            &&& after.payments.contains_key(ledger.next_payment_id)
            &&& !after.payments[ledger.next_payment_id].claimed
            &&& after.custody(token) == ledger.custody(token) + amount
            &&& forall|other: Seq<char>| other != token ==> #[trigger] after.custody(other)
                == ledger.custody(other)
        }),
{
    let after = SimplePaymentContract::payment_created(
        ledger,
        ctx,
        sender,
        recipient_username,
        token,
        amount,
        message,
    );
    let id = ledger.next_payment_id;
    assert forall|any: Seq<char>| #[trigger]
        after.locked_below(any, id) == ledger.locked_below(any, id) by {
        lemma_locked_below_agrees(after, ledger, any, id);
    }
    assert forall|any: Seq<char>| #[trigger]
        after.custody(any) == ledger.custody(any) + after.locked_by(any, id) by {
        assert(after.locked_below(any, (id + 1) as u64) == after.locked_below(
            any,
            ((id + 1) as u64 - 1) as u64,
        ) + after.locked_by(any, ((id + 1) as u64 - 1) as u64));
    }
}

/// A payment is released once: the claim that goes through lowers the
/// escrow's holdings of the payment's token by its amount and marks the
/// payment as claimed; no later claim of it asks for a disbursement or changes
/// the ledger, and a later claim by a caller who stands behind the call
/// succeeds.
pub proof fn lemma_claim_releases_once(
    ledger: LedgerView,
    ctx: CallContextView,
    recipient: Seq<char>,
    payment_id: u64,
    next_ctx: CallContextView,
    next_recipient: Seq<char>,
    next_disbursement: TransferOutcome,
)
    requires
        ledger.consistent(),
        SimplePaymentContract::claim_releases(
            ledger,
            ctx,
            recipient,
            payment_id,
            TransferOutcome::Completed,
        ),
    ensures
        ({
            let payment = ledger.payments[payment_id];
            let after = SimplePaymentContract::payment_claimed(ledger, payment_id);
            let next_transfer = SimplePaymentContract::claim_transfer_result(
                after,
                next_ctx,
                next_recipient,
                payment_id,
            );
            &&& SimplePaymentContract::claim_transfer_result(ledger, ctx, recipient, payment_id)
                == Ok::<Option<TransferView>, Error>(
                Some(
                    TransferView::Disbursement {
                        to: recipient,
                        token: payment.token,
                        amount: payment.amount,
                    },
                ),
            )
            &&& after.payments[payment_id].claimed
            &&& after.custody(payment.token) == ledger.custody(payment.token) - payment.amount
            &&& forall|other: Seq<char>| other != payment.token ==> #[trigger] after.custody(other)
                == ledger.custody(other)
            &&& !(next_transfer matches Ok(Some(_)))
            &&& !SimplePaymentContract::claim_releases(
                after,
                next_ctx,
                next_recipient,
                payment_id,
                next_disbursement,
            )
            &&& next_ctx.authorized.contains(next_recipient) ==> next_transfer == Ok::<
                Option<TransferView>,
                Error,
            >(None) && SimplePaymentContract::claim_payment_result(
                after,
                next_ctx,
                next_recipient,
                payment_id,
                next_disbursement,
            ) == Ok::<(), Error>(())
        }),
{
    let payment = ledger.payments[payment_id];
    let after = SimplePaymentContract::payment_claimed(ledger, payment_id);
    lemma_locked_below_released(ledger, after, payment.token, ledger.next_payment_id, payment_id);
    assert forall|other: Seq<char>| other != payment.token implies #[trigger] after.custody(other)
        == ledger.custody(other) by {
        lemma_locked_below_agrees(after, ledger, other, ledger.next_payment_id);
    }
}

/// The payments addressed to a user name are listed oldest first, each of
/// them once, whether or not the name is registered.
pub proof fn lemma_user_payments_in_creation_order(ledger: LedgerView, username: Seq<char>)
    requires
        ledger.consistent(),
    ensures
        forall|i: int, j: int|
            0 <= i < j < ledger.payments_of(username).len() ==> #[trigger] ledger.payments_of(
                username,
            )[i] < #[trigger] ledger.payments_of(username)[j],
        forall|payment_id: u64|
            ledger.payments_of(username).contains(payment_id) <==> #[trigger]
            ledger.payments.contains_key(payment_id) && ledger.payments[payment_id].recipient_username
                == username,
{
}

/// A payment of nothing or less is refused, whatever became of a deposit: no
/// deposit is asked for and no payment is recorded, and a sender who stands
/// behind the call is told that the amount is invalid.
pub proof fn lemma_non_positive_amount_is_invalid(
    ledger: LedgerView,
    ctx: CallContextView,
    sender: Seq<char>,
    token: Seq<char>,
    amount: i128,
    deposit: TransferOutcome,
)
    requires
        amount <= 0,
    ensures
        SimplePaymentContract::payment_transfer_result(ctx, sender, token, amount) is Err,
        SimplePaymentContract::create_payment_result(ledger, ctx, sender, token, amount, deposit)
            is Err,
        ctx.authorized.contains(sender) ==> SimplePaymentContract::payment_transfer_result(
            ctx,
            sender,
            token,
            amount,
        ) == Err::<TransferView, Error>(Error::InvalidAmount)
            && SimplePaymentContract::create_payment_result(
            ledger,
            ctx,
            sender,
            token,
            amount,
            deposit,
        ) == Err::<u64, Error>(Error::InvalidAmount),
{
}

/// A claim of a payment that was never created asks for no disbursement and
/// releases nothing, and succeeds for a caller who stands behind the call.
pub proof fn lemma_claim_of_unknown_payment_is_idle(
    ledger: LedgerView,
    ctx: CallContextView,
    recipient: Seq<char>,
    payment_id: u64,
    disbursement: TransferOutcome,
)
    requires
        !ledger.payments.contains_key(payment_id),
    ensures
        !(SimplePaymentContract::claim_transfer_result(ledger, ctx, recipient, payment_id)
            matches Ok(Some(_))),
        !SimplePaymentContract::claim_releases(ledger, ctx, recipient, payment_id, disbursement),
        ctx.authorized.contains(recipient) ==> SimplePaymentContract::claim_transfer_result(
            ledger,
            ctx,
            recipient,
            payment_id,
        ) == Ok::<Option<TransferView>, Error>(None)
            && SimplePaymentContract::claim_payment_result(
            ledger,
            ctx,
            recipient,
            payment_id,
            disbursement,
        ) == Ok::<(), Error>(()),
{
}

/// Only the address that registered the user name a payment is addressed to
/// can have it released.
pub proof fn lemma_only_owner_claims(
    ledger: LedgerView,
    ctx: CallContextView,
    recipient: Seq<char>,
    payment_id: u64,
    disbursement: TransferOutcome,
)
    requires
        SimplePaymentContract::claim_releases(ledger, ctx, recipient, payment_id, disbursement),
    ensures
        ctx.authorized.contains(recipient),
        ledger.payments.contains_key(payment_id),
        !ledger.payments[payment_id].claimed,
        ledger.profiles.contains_key(ledger.payments[payment_id].recipient_username),
        ledger.profiles[ledger.payments[payment_id].recipient_username].address == recipient,
{
}

} // verus!
