//! The store behind the contract: four keyed tables and the sequence that
//! payment identifiers are drawn from.

use crate::table::{
    absent_from, lemma_to_map_absent, lemma_to_map_entries, lemma_to_map_last_entry, lemma_to_map_push,
    lemma_to_map_update, to_map,
};
use crate::types::{Address, Payment, PaymentView, UserProfile, UserProfileView};
use vstd::prelude::*;

verus! {

/// The persistent state of the contract.
///
/// Each table is a list of entries in which the last entry for a key is the
/// one that counts; writing a key replaces that entry or appends a new one.
#[derive(Debug)]
pub struct Ledger {
    profiles: Vec<UserProfile>,
    usernames_by_address: Vec<(Address, String)>,
    payments: Vec<Payment>,
    user_payments: Vec<(String, Vec<u64>)>,
    next_payment_id: u64,
}

/// A `Ledger` as a mathematical value.
pub struct LedgerView {
    /// The profile registered under each user name.
    pub profiles: Map<Seq<char>, UserProfileView>,
    /// The user name that each address registered last.
    pub usernames_by_address: Map<Seq<char>, Seq<char>>,
    /// The payment recorded under each identifier.
    pub payments: Map<u64, PaymentView>,
    /// The identifiers of the payments addressed to each user name, oldest
    /// first.
    pub user_payments: Map<Seq<char>, Seq<u64>>,
    /// The identifier that the next payment gets.
    pub next_payment_id: u64,
}

impl LedgerView {
    /// The ledger that holds nothing; its first payment gets the identifier 1.
    pub open spec fn empty() -> LedgerView {
        LedgerView {
            profiles: Map::empty(),
            usernames_by_address: Map::empty(),
            payments: Map::empty(),
            user_payments: Map::empty(),
            next_payment_id: 1,
        }
    }

    /// The identifiers of the payments addressed to `username`, oldest first;
    /// none where nothing was ever addressed to it.
    pub open spec fn payments_of(self, username: Seq<char>) -> Seq<u64> {
        if self.user_payments.contains_key(username) {
            self.user_payments[username]
        } else {
            Seq::empty()
        }
    }

    /// Whether every profile is stored under its own user name and every
    /// payment under its own identifier.
    pub open spec fn well_keyed(self) -> bool {
        &&& forall|username: Seq<char>| #[trigger]
            self.profiles.contains_key(username) ==> self.profiles[username].username
                == username
        &&& forall|payment_id: u64| #[trigger]
            self.payments.contains_key(payment_id) ==> self.payments[payment_id].payment_id
                == payment_id
    }
}

/// The profiles as entries keyed by user name.
spec fn profile_entries(s: Seq<UserProfile>) -> Seq<(Seq<char>, UserProfileView)> {
    Seq::new(s.len(), |i: int| (s[i].username@, s[i]@))
}

/// The names of the addresses as entries keyed by address.
spec fn address_entries(s: Seq<(Address, String)>) -> Seq<(Seq<char>, Seq<char>)> {
    Seq::new(s.len(), |i: int| (s[i].0@, s[i].1@))
}

/// The payments as entries keyed by identifier.
spec fn payment_entries(s: Seq<Payment>) -> Seq<(u64, PaymentView)> {
    Seq::new(s.len(), |i: int| (s[i].payment_id, s[i]@))
}

/// The lists of payments as entries keyed by user name.
spec fn index_entries(s: Seq<(String, Vec<u64>)>) -> Seq<(Seq<char>, Seq<u64>)> {
    Seq::new(s.len(), |i: int| (s[i].0@, s[i].1@))
}

impl View for Ledger {
    type V = LedgerView;

    closed spec fn view(&self) -> LedgerView {
        LedgerView {
            profiles: to_map(profile_entries(self.profiles@)),
            usernames_by_address: to_map(address_entries(self.usernames_by_address@)),
            payments: to_map(payment_entries(self.payments@)),
            user_payments: to_map(index_entries(self.user_payments@)),
            next_payment_id: self.next_payment_id,
        }
    }
}

impl Ledger {
    /// Every ledger keeps its profiles and payments under their own keys.
    pub proof fn lemma_well_keyed(&self)
        ensures
            self@.well_keyed(),
    {
        lemma_to_map_entries(
            profile_entries(self.profiles@),
            |username: Seq<char>, profile: UserProfileView| profile.username == username,
        );
        lemma_to_map_entries(
            payment_entries(self.payments@),
            |payment_id: u64, payment: PaymentView| payment.payment_id == payment_id,
        );
    }

    /// A ledger that holds nothing; its first payment gets the identifier 1.
    pub fn new() -> (res: Self)
        ensures
            res@ == LedgerView::empty(),
    {
        Ledger {
            profiles: Vec::new(),
            usernames_by_address: Vec::new(),
            payments: Vec::new(),
            user_payments: Vec::new(),
            next_payment_id: 1,
        }
    }

    fn find_profile(&self, username: &String) -> (res: Option<usize>)
        ensures
            match res {
                Some(i) => i < self.profiles.len() && self.profiles[i as int].username@
                    == username@ && absent_from(
                    profile_entries(self.profiles@),
                    username@,
                    i + 1,
                ),
                None => absent_from(profile_entries(self.profiles@), username@, 0),
            },
    {
        let mut i: usize = self.profiles.len();
        while i > 0
            invariant
                i <= self.profiles.len(),
                absent_from(profile_entries(self.profiles@), username@, i as int),
            decreases i,
        {
            i -= 1;
            if self.profiles[i].username == *username {
                return Some(i);
            }
        }
        None
    }

    /// Whether a profile is registered under `username`.
    pub fn has_profile(&self, username: &String) -> (res: bool)
        ensures
            res == self@.profiles.contains_key(username@),
    {
        match self.find_profile(username) {
            Some(i) => {
                proof {
                    lemma_to_map_last_entry(profile_entries(self.profiles@), i as int);
                }
                true
            },
            None => {
                proof {
                    lemma_to_map_absent(profile_entries(self.profiles@), username@);
                }
                false
            },
        }
    }

    /// The profile registered under `username`, if there is one.
    pub fn profile(&self, username: &String) -> (res: Option<UserProfile>)
        ensures
            match res {
                Some(p) => self@.profiles.contains_key(username@) && p@
                    == self@.profiles[username@] && p.username@ == username@,
                None => !self@.profiles.contains_key(username@),
            },
    {
        match self.find_profile(username) {
            Some(i) => {
                proof {
                    lemma_to_map_last_entry(profile_entries(self.profiles@), i as int);
                }
                Some(self.profiles[i].clone())
            },
            None => {
                proof {
                    lemma_to_map_absent(profile_entries(self.profiles@), username@);
                }
                None
            },
        }
    }

    /// Stores `profile` under its user name, in place of what was there.
    pub fn set_profile(&mut self, profile: UserProfile)
        ensures
            final(self)@ == (LedgerView {
                profiles: old(self)@.profiles.insert(profile.username@, profile@),
                ..old(self)@
            }),
    {
        let ghost before = profile_entries(self.profiles@);
        match self.find_profile(&profile.username) {
            Some(i) => {
                self.profiles.set(i, profile);
                proof {
                    lemma_to_map_update(before, i as int, profile@);
                    assert(profile_entries(self.profiles@) =~= before.update(
                        i as int,
                        (before[i as int].0, profile@),
                    ));
                }
            },
            None => {
                self.profiles.push(profile);
                proof {
                    lemma_to_map_push(before, profile.username@, profile@);
                    assert(profile_entries(self.profiles@) =~= before.push(
                        (profile.username@, profile@),
                    ));
                }
            },
        }
    }
}

impl Ledger {
    fn find_address(&self, address: &Address) -> (res: Option<usize>)
        ensures
            match res {
                Some(i) => i < self.usernames_by_address.len()
                    && self.usernames_by_address[i as int].0@ == address@ && absent_from(
                    address_entries(self.usernames_by_address@),
                    address@,
                    i + 1,
                ),
                None => absent_from(address_entries(self.usernames_by_address@), address@, 0),
            },
    {
        let mut i: usize = self.usernames_by_address.len();
        while i > 0
            invariant
                i <= self.usernames_by_address.len(),
                absent_from(address_entries(self.usernames_by_address@), address@, i as int),
            decreases i,
        {
            i -= 1;
            if self.usernames_by_address[i].0.same(address) {
                return Some(i);
            }
        }
        None
    }

    /// The user name that `address` registered last, if it registered any.
    pub fn username_of(&self, address: &Address) -> (res: Option<String>)
        ensures
            match res {
                Some(u) => self@.usernames_by_address.contains_key(address@) && u@
                    == self@.usernames_by_address[address@],
                None => !self@.usernames_by_address.contains_key(address@),
            },
    {
        match self.find_address(address) {
            Some(i) => {
                proof {
                    lemma_to_map_last_entry(
                        address_entries(self.usernames_by_address@),
                        i as int,
                    );
                }
                Some(self.usernames_by_address[i].1.clone())
            },
            None => {
                proof {
                    lemma_to_map_absent(address_entries(self.usernames_by_address@), address@);
                }
                None
            },
        }
    }

    /// Stores `username` as the name of `address`, in place of what was there.
    pub fn set_username_of(&mut self, address: Address, username: String)
        ensures
            final(self)@ == (LedgerView {
                usernames_by_address: old(self)@.usernames_by_address.insert(
                    address@,
                    username@,
                ),
                ..old(self)@
            }),
    {
        let ghost before = address_entries(self.usernames_by_address@);
        match self.find_address(&address) {
            Some(i) => {
                self.usernames_by_address.set(i, (address, username));
                proof {
                    lemma_to_map_update(before, i as int, username@);
                    assert(address_entries(self.usernames_by_address@) =~= before.update(
                        i as int,
                        (before[i as int].0, username@),
                    ));
                }
            },
            None => {
                self.usernames_by_address.push((address, username));
                proof {
                    lemma_to_map_push(before, address@, username@);
                    assert(address_entries(self.usernames_by_address@) =~= before.push(
                        (address@, username@),
                    ));
                }
            },
        }
    }

    fn find_payment(&self, payment_id: u64) -> (res: Option<usize>)
        ensures
            match res {
                Some(i) => i < self.payments.len() && self.payments[i as int].payment_id
                    == payment_id && absent_from(
                    payment_entries(self.payments@),
                    payment_id,
                    i + 1,
                ),
                None => absent_from(payment_entries(self.payments@), payment_id, 0),
            },
    {
        let mut i: usize = self.payments.len();
        while i > 0
            invariant
                i <= self.payments.len(),
                absent_from(payment_entries(self.payments@), payment_id, i as int),
            decreases i,
        {
            i -= 1;
            if self.payments[i].payment_id == payment_id {
                return Some(i);
            }
        }
        None
    }

    /// The payment recorded under `payment_id`, if there is one.
    pub fn payment(&self, payment_id: u64) -> (res: Option<Payment>)
        ensures
            match res {
                Some(p) => self@.payments.contains_key(payment_id) && p@
                    == self@.payments[payment_id] && p.payment_id == payment_id,
                None => !self@.payments.contains_key(payment_id),
            },
    {
        match self.find_payment(payment_id) {
            Some(i) => {
                proof {
                    lemma_to_map_last_entry(payment_entries(self.payments@), i as int);
                }
                Some(self.payments[i].clone())
            },
            None => {
                proof {
                    lemma_to_map_absent(payment_entries(self.payments@), payment_id);
                }
                None
            },
        }
    }

    /// Stores `payment` under its identifier, in place of what was there.
    pub fn set_payment(&mut self, payment: Payment)
        ensures
            final(self)@ == (LedgerView {
                payments: old(self)@.payments.insert(payment.payment_id, payment@),
                ..old(self)@
            }),
    {
        let ghost before = payment_entries(self.payments@);
        match self.find_payment(payment.payment_id) {
            Some(i) => {
                self.payments.set(i, payment);
                proof {
                    lemma_to_map_update(before, i as int, payment@);
                    assert(payment_entries(self.payments@) =~= before.update(
                        i as int,
                        (before[i as int].0, payment@),
                    ));
                }
            },
            None => {
                self.payments.push(payment);
                proof {
                    lemma_to_map_push(before, payment.payment_id, payment@);
                    assert(payment_entries(self.payments@) =~= before.push(
                        (payment.payment_id, payment@),
                    ));
                }
            },
        }
    }

    fn find_user_payments(&self, username: &String) -> (res: Option<usize>)
        ensures
            match res {
                Some(i) => i < self.user_payments.len() && self.user_payments[i as int].0@
                    == username@ && absent_from(
                    index_entries(self.user_payments@),
                    username@,
                    i + 1,
                ),
                None => absent_from(index_entries(self.user_payments@), username@, 0),
            },
    {
        let mut i: usize = self.user_payments.len();
        while i > 0
            invariant
                i <= self.user_payments.len(),
                absent_from(index_entries(self.user_payments@), username@, i as int),
            decreases i,
        {
            i -= 1;
            if self.user_payments[i].0 == *username {
                return Some(i);
            }
        }
        None
    }

    /// The identifiers of the payments addressed to `username`, oldest first.
    pub fn payments_of(&self, username: &String) -> (res: Vec<u64>)
        ensures
            res@ == self@.payments_of(username@),
    {
        match self.find_user_payments(username) {
            Some(i) => {
                proof {
                    lemma_to_map_last_entry(index_entries(self.user_payments@), i as int);
                }
                self.user_payments[i].1.clone()
            },
            None => {
                proof {
                    lemma_to_map_absent(index_entries(self.user_payments@), username@);
                }
                Vec::new()
            },
        }
    }

    /// Stores `payment_ids` as the payments addressed to `username`, in place
    /// of what was there.
    pub fn set_payments_of(&mut self, username: String, payment_ids: Vec<u64>)
        ensures
            final(self)@ == (LedgerView {
                user_payments: old(self)@.user_payments.insert(username@, payment_ids@),
                ..old(self)@
            }),
    {
        let ghost before = index_entries(self.user_payments@);
        match self.find_user_payments(&username) {
            Some(i) => {
                self.user_payments.set(i, (username, payment_ids));
                proof {
                    lemma_to_map_update(before, i as int, payment_ids@);
                    assert(index_entries(self.user_payments@) =~= before.update(
                        i as int,
                        (before[i as int].0, payment_ids@),
                    ));
                }
            },
            None => {
                self.user_payments.push((username, payment_ids));
                proof {
                    lemma_to_map_push(before, username@, payment_ids@);
                    assert(index_entries(self.user_payments@) =~= before.push(
                        (username@, payment_ids@),
                    ));
                }
            },
        }
    }

    /// The identifier that the next payment gets.
    pub fn next_payment_id(&self) -> (res: u64)
        ensures
            res == self@.next_payment_id,
    {
        self.next_payment_id
    }

    /// Makes `next` the identifier that the next payment gets.
    pub fn set_next_payment_id(&mut self, next: u64)
        ensures
            final(self)@ == (LedgerView { next_payment_id: next, ..old(self)@ }),
    {
        self.next_payment_id = next;
    }
}

} // verus!
