//! The ledger as a mathematical value, and what each call makes of it.
//!
//! One fact, "this account owns this kitty", is kept three times over: in a
//! store keyed by account and number, in an index from number to account, and
//! in a listing per account. `Ledger::wf` says that the three agree.

use crate::dna::combined;
use crate::types::{AccountId, Error, Kitty, KittyIndex};
use vstd::prelude::*;

verus! {

/// One line of an account's listing.
pub type Entry = (KittyIndex, Kitty);

/// One kitty as it is kept outside the registry: its owner, its number and
/// itself.
pub type Record = (AccountId, KittyIndex, Kitty);

/// Whether a line of a listing is about another kitty than `id`.
pub open spec fn other_than(id: KittyIndex) -> spec_fn(Entry) -> bool {
    |entry: Entry| entry.0 != id
}

/// No number stands on two lines of the listing.
pub open spec fn distinct_ids(listing: Seq<Entry>) -> bool {
    forall|i: int, j: int|
        0 <= i < j < listing.len() ==> (#[trigger] listing[i]).0 != (#[trigger] listing[j]).0
}

/// The number stands on one line of the listing, and on one only.
pub open spec fn listed_once(listing: Seq<Entry>, id: KittyIndex) -> bool {
    exists|i: int|
        0 <= i < listing.len() && (#[trigger] listing[i]).0 == id && forall|j: int|
            0 <= j < listing.len() && (#[trigger] listing[j]).0 == id ==> j == i
}

/// The number stands on some line of the listing.
pub open spec fn listed(listing: Seq<Entry>, id: KittyIndex) -> bool {
    exists|i: int| 0 <= i < listing.len() && (#[trigger] listing[i]).0 == id
}

/// The state of the registry.
#[verifier::ext_equal]
pub struct Ledger {
    /// The kitties, by owner and number.
    pub kitties: Map<(AccountId, KittyIndex), Kitty>,
    /// The owner of each kitty.
    pub owners: Map<KittyIndex, AccountId>,
    /// The kitties of each account, in the order in which it got them. Every
    /// account has a listing; that of an account without kitties is empty.
    pub accounts: Map<AccountId, Seq<Entry>>,
    /// The number given out last, or zero.
    pub count: KittyIndex,
}

impl Ledger {
    /// The ledger without kitties.
    pub open spec fn empty() -> Ledger {
        Ledger {
            kitties: Map::empty(),
            owners: Map::empty(),
            accounts: Map::total(|owner: AccountId| Seq::<Entry>::empty()),
            count: 0,
        }
    }

    /// Whether `owner` owns the kitty `id`.
    pub open spec fn owns(self, owner: AccountId, id: KittyIndex) -> bool {
        self.kitties.contains_key((owner, id))
    }

    /// The kitty `id` as `owner` holds it, if `owner` does.
    pub open spec fn lookup(self, owner: AccountId, id: KittyIndex) -> Option<Kitty> {
        if self.owns(owner, id) {
            Some(self.kitties[(owner, id)])
        } else {
            None
        }
    }

    /// The owner of the kitty `id`, if there is such a kitty.
    pub open spec fn owner_of(self, id: KittyIndex) -> Option<AccountId> {
        if self.owners.contains_key(id) {
            Some(self.owners[id])
        } else {
            None
        }
    }

    /// The kitties of `owner`, in the order in which it got them.
    pub open spec fn listing(self, owner: AccountId) -> Seq<Entry> {
        self.accounts[owner]
    }

    /// The three views agree, and no number above the counter is in use.
    pub open spec fn wf(self) -> bool {
        &&& forall|owner: AccountId| #[trigger] self.accounts.contains_key(owner)
        &&& forall|id: KittyIndex| #[trigger]
            self.owners.contains_key(id) ==> 0 < id <= self.count && self.owns(self.owners[id], id)
        &&& forall|owner: AccountId, id: KittyIndex| #[trigger]
            self.kitties.contains_key((owner, id)) ==> {
                &&& self.owners.contains_key(id)
                &&& self.owners[id] == owner
                &&& self.accounts[owner].contains((id, self.kitties[(owner, id)]))
            }
        &&& forall|owner: AccountId, i: int|
            0 <= i < self.accounts[owner].len() ==> self.lookup(
                owner,
                (#[trigger] self.accounts[owner][i]).0,
            ) == Some(self.accounts[owner][i].1)
        &&& forall|owner: AccountId| distinct_ids(#[trigger] self.accounts[owner])
    }

    /// The number that the next kitty gets, unless the numbers have run out.
    pub open spec fn next_id(self) -> Result<KittyIndex, Error> {
        if self.count < KittyIndex::MAX {
            Ok((self.count + 1) as KittyIndex)
        } else {
            Err(Error::KittiesCountOverflow)
        }
    }

    /// The ledger with the kitty `id` of `owner` added: to the store, to the
    /// index and to the end of the owner's listing. The counter stays.
    pub open spec fn enlist(self, owner: AccountId, id: KittyIndex, kitty: Kitty) -> Ledger {
        Ledger {
            kitties: self.kitties.insert((owner, id), kitty),
            owners: self.owners.insert(id, owner),
            accounts: self.accounts.insert(owner, self.accounts[owner].push((id, kitty))),
            count: self.count,
        }
    }

    /// The ledger after `owner` got the new kitty `id`: the kitty is in the
    /// store and in the index, at the end of the owner's listing, and the
    /// counter stands at `id`.
    pub open spec fn insert(self, owner: AccountId, id: KittyIndex, kitty: Kitty) -> Ledger {
        Ledger { count: id, ..self.enlist(owner, id, kitty) }
    }

    /// What `create` does, for a kitty of the given genome: the new ledger and
    /// the kitty's number, or the ledger as it was and the reason.
    pub open spec fn create(self, owner: AccountId, dna: [u8; 16]) -> (Ledger, Result<KittyIndex, Error>) {
        match self.next_id() {
            Ok(id) => (self.insert(owner, id, Kitty(dna)), Ok(id)),
            Err(e) => (self, Err(e)),
        }
    }

    /// What `transfer` does: the kitty leaves the listing of `from`, goes to
    /// the end of the listing of `to`, and store and index name `to` as its
    /// owner. Nothing changes if `from` does not own the kitty.
    pub open spec fn transfer(self, from: AccountId, to: AccountId, id: KittyIndex) -> (
        Ledger,
        Result<(), Error>,
    ) {
        if !self.owns(from, id) {
            (self, Err(Error::InvalidaKittyId))
        } else {
            let kitty = self.kitties[(from, id)];
            let taken = self.accounts.insert(from, self.accounts[from].filter(other_than(id)));
            (
                Ledger {
                    kitties: self.kitties.remove((from, id)).insert((to, id), kitty),
                    owners: self.owners.insert(id, to),
                    accounts: taken.insert(to, taken[to].push((id, kitty))),
                    count: self.count,
                },
                Ok(()),
            )
        }
    }

    /// What `do_breed` does under the given selector. The parents are looked
    /// up first, so a kitty that `owner` does not own is reported even where
    /// the two numbers are the same.
    pub open spec fn breed(
        self,
        owner: AccountId,
        id1: KittyIndex,
        id2: KittyIndex,
        selector: [u8; 16],
    ) -> (Ledger, Result<KittyIndex, Error>) {
        if !self.owns(owner, id1) || !self.owns(owner, id2) {
            (self, Err(Error::InvalidaKittyId))
        } else if id1 == id2 {
            (self, Err(Error::RequireDifferentParent))
        } else {
            let dna1 = self.kitties[(owner, id1)].0;
            let dna2 = self.kitties[(owner, id2)].0;
            self.create(owner, combined(dna1, dna2, selector))
        }
    }

    /// Whether the kitty `id` of `owner` is the one that came last: its number
    /// is the counter, and it stands at the end of the owner's listing.
    pub open spec fn is_latest(self, owner: AccountId, id: KittyIndex) -> bool {
        &&& 0 < id == self.count
        &&& self.owns(owner, id)
        &&& self.accounts[owner].len() > 0
        &&& self.accounts[owner].last().0 == id
    }

    /// The ledger without its latest kitty, the counter set back by one.
    pub open spec fn revoke(self, owner: AccountId, id: KittyIndex) -> Ledger {
        Ledger {
            kitties: self.kitties.remove((owner, id)),
            owners: self.owners.remove(id),
            accounts: self.accounts.insert(owner, self.accounts[owner].drop_last()),
            count: (id - 1) as KittyIndex,
        }
    }

    /// What `settle` does once the balances have answered. Where the funds
    /// were reserved the kitty stays. Where they were not, the kitty is taken
    /// back, provided that it is the latest.
    pub open spec fn settle(self, owner: AccountId, id: KittyIndex, reserved: bool) -> (
        Ledger,
        Result<KittyIndex, Error>,
    ) {
        if !self.owns(owner, id) {
            (self, Err(Error::InvalidaKittyId))
        } else if reserved {
            (self, Ok(id))
        } else if self.is_latest(owner, id) {
            (self.revoke(owner, id), Err(Error::InsufficientFunds))
        } else {
            (self, Err(Error::InvalidaKittyId))
        }
    }
}

/// Whether the records can be those of a registry whose counter stands at
/// `count`: every number lies between one and the counter, and none is there
/// twice.
pub open spec fn records_valid(count: KittyIndex, records: Seq<Record>) -> bool {
    &&& forall|i: int| 0 <= i < records.len() ==> 0 < (#[trigger] records[i]).1 <= count
    &&& forall|i: int, j: int|
        0 <= i < j < records.len() ==> (#[trigger] records[i]).1 != (#[trigger] records[j]).1
}

/// The ledger that holds the kitties of the records and no others, each
/// listing in the order of the records, the counter at `count`.
pub open spec fn ledger_of_records(count: KittyIndex, records: Seq<Record>) -> Ledger
    decreases records.len(),
{
    if records.len() == 0 {
        Ledger { count: count, ..Ledger::empty() }
    } else {
        ledger_of_records(count, records.drop_last()).enlist(
            records.last().0,
            records.last().1,
            records.last().2,
        )
    }
}

} // verus!
