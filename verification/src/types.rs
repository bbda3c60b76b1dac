//! The records that the ledger keeps, and their mathematical views.

use vstd::prelude::*;

verus! {

/// An opaque account identifier, held in its textual form.
#[derive(Debug, PartialEq, Eq, Hash)]
pub struct Address {
    pub strkey: String,
}

impl View for Address {
    type V = Seq<char>;

    open spec fn view(&self) -> Seq<char> {
        self.strkey@
    }
}

impl Clone for Address {
    fn clone(&self) -> (res: Self)
        ensures
            res == *self,
    {
        Address { strkey: self.strkey.clone() }
    }
}

impl Address {
    /// The address written as `strkey`.
    pub fn new(strkey: String) -> (res: Self)
        ensures
            res.strkey == strkey,
    {
        Address { strkey }
    }

    /// Whether two addresses name the same account.
    pub fn same(&self, other: &Address) -> (res: bool)
        ensures
            res == (self@ == other@),
    {
        self.strkey == other.strkey
    }
}

/// Why an operation was refused.
#[derive(Clone, Copy, Debug, PartialEq, Eq, Structural)]
pub enum Error {
    /// The caller has not proven control of the address it acts for, or that
    /// address does not own the user name a payment is addressed to.
    Unauthorized,
    /// The user name is registered already.
    UsernameTaken,
    /// The amount is zero or negative.
    InvalidAmount,
    /// The token transfer was rejected.
    TransferFailed,
    /// The user name a payment is addressed to is not registered.
    NotFound,
}

/// The binding of a user name to the account that registered it.
#[derive(Debug, PartialEq, Eq)]
pub struct UserProfile {
    pub username: String,
    pub address: Address,
    pub created_at: u64,
}

/// A `UserProfile` as a mathematical value.
pub struct UserProfileView {
    pub username: Seq<char>,
    pub address: Seq<char>,
    pub created_at: u64,
}

impl View for UserProfile {
    type V = UserProfileView;

    open spec fn view(&self) -> UserProfileView {
        UserProfileView {
            username: self.username@,
            address: self.address@,
            created_at: self.created_at,
        }
    }
}

impl Clone for UserProfile {
    fn clone(&self) -> (res: Self)
        ensures
            res == *self,
    {
        UserProfile {
            username: self.username.clone(),
            address: self.address.clone(),
            created_at: self.created_at,
        }
    }
}

/// Funds locked for the owner of a user name.
#[derive(Debug, PartialEq, Eq)]
pub struct Payment {
    pub payment_id: u64,
    pub recipient_username: String,
    pub sender: Address,
    pub token: Address,
    pub amount: i128,
    pub message: String,
    pub timestamp: u64,
    pub claimed: bool,
}

/// A `Payment` as a mathematical value.
pub struct PaymentView {
    pub payment_id: u64,
    pub recipient_username: Seq<char>,
    pub sender: Seq<char>,
    pub token: Seq<char>,
    pub amount: i128,
    pub message: Seq<char>,
    pub timestamp: u64,
    pub claimed: bool,
}

impl View for Payment {
    type V = PaymentView;

    open spec fn view(&self) -> PaymentView {
        PaymentView {
            payment_id: self.payment_id,
            recipient_username: self.recipient_username@,
            sender: self.sender@,
            token: self.token@,
            amount: self.amount,
            message: self.message@,
            timestamp: self.timestamp,
            claimed: self.claimed,
        }
    }
}

impl Clone for Payment {
    fn clone(&self) -> (res: Self)
        ensures
            res == *self,
    {
        Payment {
            payment_id: self.payment_id,
            recipient_username: self.recipient_username.clone(),
            sender: self.sender.clone(),
            token: self.token.clone(),
            amount: self.amount,
            message: self.message.clone(),
            timestamp: self.timestamp,
            claimed: self.claimed,
        }
    }
}

/// A movement of tokens into or out of the escrow's custody, to be carried out
/// by whoever holds the tokens.
#[derive(Debug, PartialEq, Eq)]
pub enum Transfer {
    /// `amount` of `token` moves from `from` into custody.
    Deposit { from: Address, token: Address, amount: i128 },
    /// `amount` of `token` moves out of custody to `to`.
    Disbursement { to: Address, token: Address, amount: i128 },
}

/// A `Transfer` as a mathematical value.
pub enum TransferView {
    Deposit { from: Seq<char>, token: Seq<char>, amount: i128 },
    Disbursement { to: Seq<char>, token: Seq<char>, amount: i128 },
}

impl View for Transfer {
    type V = TransferView;

    open spec fn view(&self) -> TransferView {
        match *self {
            Transfer::Deposit { from, token, amount } => TransferView::Deposit {
                from: from@,
                token: token@,
                amount,
            },
            Transfer::Disbursement { to, token, amount } => TransferView::Disbursement {
                to: to@,
                token: token@,
                amount,
            },
        }
    }
}

/// How an attempted transfer ended.
#[derive(Clone, Copy, Debug, PartialEq, Eq, Structural)]
pub enum TransferOutcome {
    /// The whole amount has moved.
    Completed,
    /// Nothing has moved.
    Rejected,
}

/// A notification for observers of the ledger.
#[derive(Debug, PartialEq, Eq)]
pub enum Event {
    UserRegistered { username: String },
    PaymentCreated { payment_id: u64, amount: i128 },
    PaymentClaimed { payment_id: u64 },
}

/// An `Event` as a mathematical value.
pub enum EventView {
    UserRegistered { username: Seq<char> },
    PaymentCreated { payment_id: u64, amount: i128 },
    PaymentClaimed { payment_id: u64 },
}

impl View for Event {
    type V = EventView;

    open spec fn view(&self) -> EventView {
        match *self {
            Event::UserRegistered { username } => EventView::UserRegistered { username: username@ },
            Event::PaymentCreated { payment_id, amount } => EventView::PaymentCreated {
                payment_id,
                amount,
            },
            Event::PaymentClaimed { payment_id } => EventView::PaymentClaimed { payment_id },
        }
    }
}

/// The views of a sequence of events, in order.
pub open spec fn event_views(events: Seq<Event>) -> Seq<EventView> {
    Seq::new(events.len(), |i: int| events[i]@)
}

/// What the host says of one call: which addresses have proven that they
/// stand behind it, and the time at which it runs.
#[derive(Debug)]
pub struct CallContext {
    pub authorized: Vec<Address>,
    pub timestamp: u64,
}

/// A `CallContext` as a mathematical value.
pub struct CallContextView {
    pub authorized: Set<Seq<char>>,
    pub timestamp: u64,
}

impl View for CallContext {
    type V = CallContextView;

    open spec fn view(&self) -> CallContextView {
        CallContextView {
            authorized: Set::new(
                |a: Seq<char>|
                    exists|i: int| 0 <= i < self.authorized.len() && #[trigger] self.authorized[i]@ == a,
            ),
            timestamp: self.timestamp,
        }
    }
}

impl CallContext {
    /// A call at `timestamp` that no address stands behind yet.
    pub fn new(timestamp: u64) -> (res: Self)
        ensures
            res@.authorized == Set::<Seq<char>>::empty(),
            res@.timestamp == timestamp,
    {
        let res = CallContext { authorized: Vec::new(), timestamp };
        res
    }

    /// Records that `address` has proven that it stands behind the call.
    pub fn authorize(&mut self, address: Address)
        ensures
            final(self)@.authorized == old(self)@.authorized.insert(address@),
            final(self)@.timestamp == old(self)@.timestamp,
    {
        self.authorized.push(address);
        proof {
            let before = old(self).authorized@;
            let after = self.authorized@;
            assert forall|a: Seq<char>|
                self@.authorized.contains(a) == old(self)@.authorized.insert(address@).contains(
                    a,
                ) by {
                if old(self)@.authorized.contains(a) {
                    let i = choose|i: int| 0 <= i < before.len() && #[trigger] before[i]@ == a;
                    assert(after[i]@ == a);
                }
                if a == address@ {
                    assert(after[before.len() as int]@ == a);
                }
            }
        }
    }

    /// Whether `address` has proven that it stands behind the call.
    pub fn authorizes(&self, address: &Address) -> (res: bool)
        ensures
            res == self@.authorized.contains(address@),
    {
        let mut i: usize = 0;
        while i < self.authorized.len()
            invariant
                i <= self.authorized.len(),
                forall|j: int| 0 <= j < i ==> #[trigger] self.authorized[j]@ != address@,
            decreases self.authorized.len() - i,
        {
            if self.authorized[i].same(address) {
                return true;
            }
            i += 1;
        }
        false
    }
}

} // verus!
