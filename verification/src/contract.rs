//! The operations of the contract: the registry of user names and the escrow
//! of payments addressed to them.
//!
//! The contract neither verifies signatures nor moves tokens. A `CallContext`
//! tells it which addresses stand behind a call. Before a call that needs
//! tokens moved, `payment_transfer` or `claim_transfer` says which transfer is
//! due; the caller attempts it and hands the outcome to `create_payment` or
//! `claim_payment`, which records the payment or the claim only if the tokens
//! have moved.

use crate::invariants::{
    lemma_claim_payment_keeps_ledger, lemma_create_payment_keeps_ledger,
    lemma_extends_is_reflexive, lemma_register_keeps_ledger,
};
use crate::ledger::{Ledger, LedgerView};
use crate::types::{
    event_views, Address, CallContext, CallContextView, Error, Event, EventView, Payment,
    PaymentView, Transfer, TransferOutcome, TransferView, UserProfile, UserProfileView,
};
use vstd::prelude::*;

verus! {

/// The contract; its operations are associated functions that work on a
/// `Ledger`.
pub struct SimplePaymentContract;

impl SimplePaymentContract {
    /// How a registration of `username` by `caller` ends.
    pub open spec fn register_result(
        ledger: LedgerView,
        ctx: CallContextView,
        caller: Seq<char>,
        username: Seq<char>,
    ) -> Result<(), Error> {
        if !ctx.authorized.contains(caller) {
            Err(Error::Unauthorized)
        } else if ledger.profiles.contains_key(username) {
            Err(Error::UsernameTaken)
        } else {
            Ok(())
        }
    }

    /// The ledger once `caller` has registered `username`.
    pub open spec fn registered(
        ledger: LedgerView,
        ctx: CallContextView,
        caller: Seq<char>,
        username: Seq<char>,
    ) -> LedgerView {
        LedgerView {
            profiles: ledger.profiles.insert(
                username,
                UserProfileView { username, address: caller, created_at: ctx.timestamp },
            ),
            usernames_by_address: ledger.usernames_by_address.insert(caller, username),
            ..ledger
        }
    }

    /// Registers `username` for `caller`.
    ///
    /// Fails with `Unauthorized` unless `caller` stands behind the call, and
    /// with `UsernameTaken` if the name is registered already. On success the
    /// profile is stored, `username` becomes the name of `caller`'s address,
    /// and a `UserRegistered` event is emitted. On failure nothing changes.
    pub fn register(
        ledger: &mut Ledger,
        ctx: &CallContext,
        caller: Address,
        username: String,
        events: &mut Vec<Event>,
    ) -> (res: Result<(), Error>)
        ensures
            res == Self::register_result(old(ledger)@, ctx@, caller@, username@),
            res is Ok ==> final(ledger)@ == Self::registered(
                old(ledger)@,
                ctx@,
                caller@,
                username@,
            ) && event_views(final(events)@) == event_views(old(events)@).push(
                EventView::UserRegistered { username: username@ },
            ),
            res is Err ==> final(ledger)@ == old(ledger)@ && final(events)@ == old(events)@,
            final(ledger)@.extends(old(ledger)@),
            old(ledger)@.consistent() ==> final(ledger)@.consistent(),
    {
        proof {
            lemma_extends_is_reflexive(ledger@);
        }
        if !ctx.authorizes(&caller) {
            return Err(Error::Unauthorized);
        }
        if ledger.has_profile(&username) {
            return Err(Error::UsernameTaken);
        }
        proof {
            lemma_register_keeps_ledger(ledger@, ctx@, caller@, username@);
        }
        let profile = UserProfile {
            username: username.clone(),
            address: caller.clone(),
            created_at: ctx.timestamp,
        };
        ledger.set_profile(profile);
        ledger.set_username_of(caller, username.clone());
        events.push(Event::UserRegistered { username });
        Ok(())
    }

    /// The profile registered under `username`, if there is one.
    pub fn get_profile(ledger: &Ledger, username: String) -> (res: Option<UserProfile>)
        ensures
            match res {
                Some(p) => ledger@.profiles.contains_key(username@) && p@
                    == ledger@.profiles[username@],
                None => !ledger@.profiles.contains_key(username@),
            },
    {
        ledger.profile(&username)
    }

    /// The user name that `address` registered last, if it registered any.
    pub fn get_username_by_address(ledger: &Ledger, address: Address) -> (res: Option<String>)
        ensures
            match res {
                Some(u) => ledger@.usernames_by_address.contains_key(address@) && u@
                    == ledger@.usernames_by_address[address@],
                None => !ledger@.usernames_by_address.contains_key(address@),
            },
    {
        ledger.username_of(&address)
    }

    /// Whether `username` is still free to register.
    pub fn check_username(ledger: &Ledger, username: String) -> (res: bool)
        ensures
            res == !ledger@.profiles.contains_key(username@),
    {
        !ledger.has_profile(&username)
    }
}

impl SimplePaymentContract {
    /// The transfer that a payment of `amount` of `token` by `sender` needs,
    /// or why there can be no such payment.
    pub open spec fn payment_transfer_result(
        ctx: CallContextView,
        sender: Seq<char>,
        token: Seq<char>,
        amount: i128,
    ) -> Result<TransferView, Error> {
        if !ctx.authorized.contains(sender) {
            Err(Error::Unauthorized)
        } else if amount <= 0 {
            Err(Error::InvalidAmount)
        } else {
            Ok(TransferView::Deposit { from: sender, token, amount })
        }
    }

    /// How the creation of a payment ends, given how the deposit went.
    pub open spec fn create_payment_result(
        ledger: LedgerView,
        ctx: CallContextView,
        sender: Seq<char>,
        token: Seq<char>,
        amount: i128,
        deposit: TransferOutcome,
    ) -> Result<u64, Error> {
        match Self::payment_transfer_result(ctx, sender, token, amount) {
            Err(e) => Err(e),
            Ok(_) => if deposit == TransferOutcome::Completed {
                Ok(ledger.next_payment_id)
            } else {
                Err(Error::TransferFailed)
            },
        }
    }

    /// The ledger once the payment is recorded: it is stored unclaimed under
    /// the next identifier, the identifier is appended to the payments
    /// addressed to `recipient_username`, and the sequence moves on by one.
    pub open spec fn payment_created(
        ledger: LedgerView,
        ctx: CallContextView,
        sender: Seq<char>,
        recipient_username: Seq<char>,
        token: Seq<char>,
        amount: i128,
        message: Seq<char>,
    ) -> LedgerView {
        LedgerView {
            payments: ledger.payments.insert(
                ledger.next_payment_id,
                PaymentView {
                    payment_id: ledger.next_payment_id,
                    recipient_username,
                    sender,
                    token,
                    amount,
                    message,
                    timestamp: ctx.timestamp,
                    claimed: false,
                },
            ),
            user_payments: ledger.user_payments.insert(
                recipient_username,
                ledger.payments_of(recipient_username).push(ledger.next_payment_id),
            ),
            next_payment_id: (ledger.next_payment_id + 1) as u64,
            ..ledger
        }
    }

    /// Says which transfer a payment of `amount` of `token` by `sender` needs.
    ///
    /// Fails with `Unauthorized` unless `sender` stands behind the call, and
    /// with `InvalidAmount` unless `amount` is positive. Otherwise the
    /// transfer is the deposit of `amount` of `token` by `sender`.
    pub fn payment_transfer(
        ctx: &CallContext,
        sender: &Address,
        token: &Address,
        amount: i128,
    ) -> (res: Result<Transfer, Error>)
        ensures
            match res {
                Ok(t) => Self::payment_transfer_result(ctx@, sender@, token@, amount) == Ok::<
                    TransferView,
                    Error,
                >(t@),
                Err(e) => Self::payment_transfer_result(ctx@, sender@, token@, amount) == Err::<
                    TransferView,
                    Error,
                >(e),
            },
    {
        if !ctx.authorizes(sender) {
            return Err(Error::Unauthorized);
        }
        if amount <= 0 {
            return Err(Error::InvalidAmount);
        }
        Ok(Transfer::Deposit { from: sender.clone(), token: token.clone(), amount })
    }

    /// Records a payment of `amount` of `token` from `sender` to whoever owns
    /// `recipient_username`, and returns its identifier.
    ///
    /// `deposit` says how the transfer named by `payment_transfer` went. The
    /// call fails as `payment_transfer` does, and with `TransferFailed` if the
    /// deposit was rejected. On success the payment is stored unclaimed and a
    /// `PaymentCreated` event is emitted. On failure nothing changes.
    pub fn create_payment(
        ledger: &mut Ledger,
        ctx: &CallContext,
        sender: Address,
        recipient_username: String,
        token: Address,
        amount: i128,
        message: String,
        deposit: TransferOutcome,
        events: &mut Vec<Event>,
    ) -> (res: Result<u64, Error>)
        requires
            old(ledger)@.next_payment_id < u64::MAX,
        ensures
            res == Self::create_payment_result(
                old(ledger)@,
                ctx@,
                sender@,
                token@,
                amount,
                deposit,
            ),
            res is Ok ==> final(ledger)@ == Self::payment_created(
                old(ledger)@,
                ctx@,
                sender@,
                recipient_username@,
                token@,
                amount,
                message@,
            ) && event_views(final(events)@) == event_views(old(events)@).push(
                EventView::PaymentCreated { payment_id: old(ledger)@.next_payment_id, amount },
            ),
            res is Err ==> final(ledger)@ == old(ledger)@ && final(events)@ == old(events)@,
            old(ledger)@.consistent() ==> final(ledger)@.consistent(),
            old(ledger)@.consistent() ==> final(ledger)@.extends(old(ledger)@),
    {
        proof {
            lemma_extends_is_reflexive(ledger@);
        }
        match Self::payment_transfer(ctx, &sender, &token, amount) {
            Err(e) => {
                return Err(e);
            },
            Ok(_) => {},
        }
        match deposit {
            TransferOutcome::Rejected => {
                return Err(Error::TransferFailed);
            },
            TransferOutcome::Completed => {},
        }
        proof {
            if ledger@.consistent() {
                lemma_create_payment_keeps_ledger(
                    ledger@,
                    ctx@,
                    sender@,
                    recipient_username@,
                    token@,
                    amount,
                    message@,
                );
            }
        }
        let payment_id = ledger.next_payment_id();
        let payment = Payment {
            payment_id,
            recipient_username: recipient_username.clone(),
            sender,
            token,
            amount,
            message,
            timestamp: ctx.timestamp,
            claimed: false,
        };
        ledger.set_payment(payment);
        let mut payment_ids = ledger.payments_of(&recipient_username);
        payment_ids.push(payment_id);
        ledger.set_payments_of(recipient_username, payment_ids);
        ledger.set_next_payment_id(payment_id + 1);
        events.push(Event::PaymentCreated { payment_id, amount });
        Ok(payment_id)
    }

    /// The payment recorded under `payment_id`, if there is one.
    pub fn get_payment(ledger: &Ledger, payment_id: u64) -> (res: Option<Payment>)
        ensures
            match res {
                Some(p) => ledger@.payments.contains_key(payment_id) && p@
                    == ledger@.payments[payment_id],
                None => !ledger@.payments.contains_key(payment_id),
            },
    {
        ledger.payment(payment_id)
    }

    /// The identifiers of the payments addressed to `username`, oldest first,
    /// whether or not the name is registered.
    pub fn get_user_payments(ledger: &Ledger, username: String) -> (res: Vec<u64>)
        ensures
            res@ == ledger@.payments_of(username@),
    {
        ledger.payments_of(&username)
    }
}

impl SimplePaymentContract {
    /// The transfer that a claim of `payment_id` by `recipient` needs: none
    /// where there is nothing left to claim; or why the claim is refused.
    pub open spec fn claim_transfer_result(
        ledger: LedgerView,
        ctx: CallContextView,
        recipient: Seq<char>,
        payment_id: u64,
    ) -> Result<Option<TransferView>, Error> {
        if !ctx.authorized.contains(recipient) {
            Err(Error::Unauthorized)
        } else if !ledger.payments.contains_key(payment_id)
            || ledger.payments[payment_id].claimed {
            Ok(None)
        } else if !ledger.profiles.contains_key(ledger.payments[payment_id].recipient_username) {
            Err(Error::NotFound)
        } else if ledger.profiles[ledger.payments[payment_id].recipient_username].address
            != recipient {
            Err(Error::Unauthorized)
        } else {
            Ok(
                Some(
                    TransferView::Disbursement {
                        to: recipient,
                        token: ledger.payments[payment_id].token,
                        amount: ledger.payments[payment_id].amount,
                    },
                ),
            )
        }
    }

    /// How a claim ends, given how the disbursement went.
    pub open spec fn claim_payment_result(
        ledger: LedgerView,
        ctx: CallContextView,
        recipient: Seq<char>,
        payment_id: u64,
        disbursement: TransferOutcome,
    ) -> Result<(), Error> {
        match Self::claim_transfer_result(ledger, ctx, recipient, payment_id) {
            Err(e) => Err(e),
            Ok(None) => Ok(()),
            Ok(Some(_)) => if disbursement == TransferOutcome::Completed {
                Ok(())
            } else {
                Err(Error::TransferFailed)
            },
        }
    }

    /// Whether a claim releases the payment: a disbursement was due and it
    /// went through.
    pub open spec fn claim_releases(
        ledger: LedgerView,
        ctx: CallContextView,
        recipient: Seq<char>,
        payment_id: u64,
        disbursement: TransferOutcome,
    ) -> bool {
        Self::claim_transfer_result(ledger, ctx, recipient, payment_id) matches Ok(Some(_))
            && disbursement == TransferOutcome::Completed
    }

    /// The ledger once the payment under `payment_id` is marked as claimed.
    pub open spec fn payment_claimed(ledger: LedgerView, payment_id: u64) -> LedgerView {
        LedgerView {
            payments: ledger.payments.insert(
                payment_id,
                PaymentView { claimed: true, ..ledger.payments[payment_id] },
            ),
            ..ledger
        }
    }

    /// The unclaimed payment that `recipient` may claim under `payment_id`:
    /// none where there is nothing left to claim.
    fn claimable(ledger: &Ledger, ctx: &CallContext, recipient: &Address, payment_id: u64) -> (res:
        Result<Option<Payment>, Error>)
        ensures
            match res {
                Ok(Some(p)) => Self::claim_transfer_result(ledger@, ctx@, recipient@, payment_id)
                    matches Ok(Some(_)) && p@ == ledger@.payments[payment_id] && p.payment_id
                    == payment_id,
                Ok(None) => Self::claim_transfer_result(ledger@, ctx@, recipient@, payment_id)
                    == Ok::<Option<TransferView>, Error>(None),
                Err(e) => Self::claim_transfer_result(ledger@, ctx@, recipient@, payment_id)
                    == Err::<Option<TransferView>, Error>(e),
            },
    {
        if !ctx.authorizes(recipient) {
            return Err(Error::Unauthorized);
        }
        let payment = match ledger.payment(payment_id) {
            None => {
                return Ok(None);
            },
            Some(p) => p,
        };
        if payment.claimed {
            return Ok(None);
        }
        let owner = match ledger.profile(&payment.recipient_username) {
            None => {
                return Err(Error::NotFound);
            },
            Some(profile) => profile.address,
        };
        if !owner.same(recipient) {
            return Err(Error::Unauthorized);
        }
        Ok(Some(payment))
    }

    /// Says which transfer a claim of `payment_id` by `recipient` needs.
    ///
    /// Fails with `Unauthorized` unless `recipient` stands behind the call.
    /// Where no payment has that identifier, or it is claimed already, no
    /// transfer is due. Otherwise the call fails with `NotFound` if the user
    /// name that the payment is addressed to is not registered, and with
    /// `Unauthorized` if `recipient` is not the address that registered it;
    /// else the transfer is the disbursement of the payment's amount of its
    /// token to `recipient`.
    pub fn claim_transfer(
        ledger: &Ledger,
        ctx: &CallContext,
        recipient: &Address,
        payment_id: u64,
    ) -> (res: Result<Option<Transfer>, Error>)
        ensures
            match res {
                Ok(Some(t)) => Self::claim_transfer_result(ledger@, ctx@, recipient@, payment_id)
                    == Ok::<Option<TransferView>, Error>(Some(t@)),
                Ok(None) => Self::claim_transfer_result(ledger@, ctx@, recipient@, payment_id)
                    == Ok::<Option<TransferView>, Error>(None),
                Err(e) => Self::claim_transfer_result(ledger@, ctx@, recipient@, payment_id)
                    == Err::<Option<TransferView>, Error>(e),
            },
    {
        match Self::claimable(ledger, ctx, recipient, payment_id) {
            Err(e) => Err(e),
            Ok(None) => Ok(None),
            Ok(Some(payment)) => Ok(
                Some(
                    Transfer::Disbursement {
                        to: recipient.clone(),
                        token: payment.token,
                        amount: payment.amount,
                    },
                ),
            ),
        }
    }

    /// Releases the payment under `payment_id` to `recipient`.
    ///
    /// `disbursement` says how the transfer named by `claim_transfer` went.
    /// The call fails as `claim_transfer` does, and with `TransferFailed` if a
    /// disbursement was due and was rejected. Where a disbursement was due and
    /// went through, the payment is marked as claimed and a `PaymentClaimed`
    /// event is emitted. In every other case, also where no payment has that
    /// identifier or it is claimed already, nothing changes.
    pub fn claim_payment(
        ledger: &mut Ledger,
        ctx: &CallContext,
        recipient: Address,
        payment_id: u64,
        disbursement: TransferOutcome,
        events: &mut Vec<Event>,
    ) -> (res: Result<(), Error>)
        ensures
            res == Self::claim_payment_result(
                old(ledger)@,
                ctx@,
                recipient@,
                payment_id,
                disbursement,
            ),
            Self::claim_releases(old(ledger)@, ctx@, recipient@, payment_id, disbursement)
                ==> final(ledger)@ == Self::payment_claimed(old(ledger)@, payment_id)
                && event_views(final(events)@) == event_views(old(events)@).push(
                EventView::PaymentClaimed { payment_id },
            ),
            !Self::claim_releases(old(ledger)@, ctx@, recipient@, payment_id, disbursement)
                ==> final(ledger)@ == old(ledger)@ && final(events)@ == old(events)@,
            final(ledger)@.extends(old(ledger)@),
            old(ledger)@.consistent() ==> final(ledger)@.consistent(),
    {
        proof {
            lemma_extends_is_reflexive(ledger@);
        }
        let payment = match Self::claimable(ledger, ctx, &recipient, payment_id) {
            Err(e) => {
                return Err(e);
            },
            Ok(None) => {
                return Ok(());
            },
            Ok(Some(p)) => p,
        };
        match disbursement {
            TransferOutcome::Rejected => {
                return Err(Error::TransferFailed);
            },
            TransferOutcome::Completed => {},
        }
        proof {
            lemma_claim_payment_keeps_ledger(ledger@, payment_id);
        }
        let claimed = Payment { claimed: true, ..payment };
        ledger.set_payment(claimed);
        events.push(Event::PaymentClaimed { payment_id });
        Ok(())
    }
}

} // verus!
