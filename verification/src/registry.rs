//! The registry of kitties: who owns which, kept in three maps that every call
//! changes together.

use crate::consistency::{
    lemma_empty_wf, lemma_insert_wf, lemma_records_numbers, lemma_records_wf, lemma_revoke_wf,
    lemma_transfer_wf,
};
use crate::dna::combine_genomes;
use crate::entropy::{random_value, random_value_of};
use crate::ledger::{ledger_of_records, other_than, records_valid, Entry, Ledger, Record};
use crate::types::{AccountId, Error, Kitty, KittyIndex};
use std::collections::HashMap;
use vstd::prelude::*;

verus! {

/// The key under which the store holds the kitty `id` of `owner`: the account
/// in the high bits, the number in the low thirty-two.
pub open spec fn slot_of(owner: AccountId, id: KittyIndex) -> u128 {
    (owner * 0x1_0000_0000 + id) as u128
}

/// Two keys of the store are equal only where account and number are.
pub proof fn lemma_slot_injective(
    owner1: AccountId,
    id1: KittyIndex,
    owner2: AccountId,
    id2: KittyIndex,
)
    ensures
        slot_of(owner1, id1) == slot_of(owner2, id2) <==> owner1 == owner2 && id1 == id2,
{
}

/// The store as a map from account and number.
pub open spec fn store_view(store: Map<u128, Kitty>) -> Map<(AccountId, KittyIndex), Kitty> {
    Map::new(
        |key: (AccountId, KittyIndex)| store.contains_key(slot_of(key.0, key.1)),
        |key: (AccountId, KittyIndex)| store[slot_of(key.0, key.1)],
    )
}

/// The listing that the map holds for `owner`: empty where it holds none.
pub open spec fn listing_of(accounts: Map<AccountId, Vec<Entry>>, owner: AccountId) -> Seq<Entry> {
    if accounts.contains_key(owner) {
        accounts[owner]@
    } else {
        Seq::empty()
    }
}

/// The listings as a map that knows every account.
pub open spec fn listings_view(accounts: Map<AccountId, Vec<Entry>>) -> Map<AccountId, Seq<Entry>> {
    Map::total(|owner: AccountId| listing_of(accounts, owner))
}

proof fn lemma_store_insert(store: Map<u128, Kitty>, owner: AccountId, id: KittyIndex, kitty: Kitty)
    ensures
        store_view(store.insert(slot_of(owner, id), kitty)) == store_view(store).insert(
            (owner, id),
            kitty,
        ),
{
    let left = store_view(store.insert(slot_of(owner, id), kitty));
    let right = store_view(store).insert((owner, id), kitty);
    assert forall|key: (AccountId, KittyIndex)|
        left.contains_key(key) == right.contains_key(key) && (left.contains_key(key) ==> left[key]
            == right[key]) by {
        lemma_slot_injective(key.0, key.1, owner, id);
    }
    assert(left =~= right);
}

proof fn lemma_store_remove(store: Map<u128, Kitty>, owner: AccountId, id: KittyIndex)
    ensures
        store_view(store.remove(slot_of(owner, id))) == store_view(store).remove((owner, id)),
{
    let left = store_view(store.remove(slot_of(owner, id)));
    let right = store_view(store).remove((owner, id));
    assert forall|key: (AccountId, KittyIndex)|
        left.contains_key(key) == right.contains_key(key) && (left.contains_key(key) ==> left[key]
            == right[key]) by {
        lemma_slot_injective(key.0, key.1, owner, id);
    }
    assert(left =~= right);
}

proof fn lemma_listings_insert(
    accounts: Map<AccountId, Vec<Entry>>,
    owner: AccountId,
    listing: Vec<Entry>,
)
    ensures
        listings_view(accounts.insert(owner, listing)) == listings_view(accounts).insert(
            owner,
            listing@,
        ),
{
    assert(listings_view(accounts.insert(owner, listing)) =~= listings_view(accounts).insert(
        owner,
        listing@,
    ));
}

proof fn lemma_listings_remove(accounts: Map<AccountId, Vec<Entry>>, owner: AccountId)
    ensures
        listings_view(accounts.remove(owner)) == listings_view(accounts).insert(
            owner,
            Seq::empty(),
        ),
{
    assert(listings_view(accounts.remove(owner)) =~= listings_view(accounts).insert(
        owner,
        Seq::empty(),
    ));
}

/// The ledger that the three maps and the counter stand for.
pub open spec fn ledger_of(
    store: Map<u128, Kitty>,
    owners: Map<KittyIndex, AccountId>,
    accounts: Map<AccountId, Vec<Entry>>,
    count: KittyIndex,
) -> Ledger {
    Ledger {
        kitties: store_view(store),
        owners: owners,
        accounts: listings_view(accounts),
        count: count,
    }
}

/// The registry: the store of kitties by owner and number, the index from
/// number to owner, the listing of each account, and the counter.
pub struct Registry {
    kitties: HashMap<u128, Kitty>,
    owners: HashMap<KittyIndex, AccountId>,
    accounts: HashMap<AccountId, Vec<Entry>>,
    count: KittyIndex,
}

impl View for Registry {
    type V = Ledger;

    closed spec fn view(&self) -> Ledger {
        ledger_of(self.kitties@, self.owners@, self.accounts@, self.count)
    }
}

/// The key under which the store holds the kitty `id` of `owner`.
fn slot(owner: AccountId, id: KittyIndex) -> (key: u128)
    ensures
        key == slot_of(owner, id),
{
    (owner as u128) * 0x1_0000_0000u128 + (id as u128)
}

/// Takes the listing of `owner` out of the map, leaving none there.
fn take_listing(accounts: &mut HashMap<AccountId, Vec<Entry>>, owner: &AccountId) -> (listing: Vec<
    Entry,
>)
    ensures
        listing@ == listing_of(old(accounts)@, *owner),
        final(accounts)@ == old(accounts)@.remove(*owner),
{
    match accounts.remove(owner) {
        Some(listing) => listing,
        None => Vec::new(),
    }
}

impl Registry {
    /// The three maps agree with one another and with the counter. This holds
    /// of every registry, at every moment at which one can be seen.
    #[verifier::type_invariant]
    spec fn consistent(&self) -> bool {
        self@.wf()
    }

    /// A registry without kitties.
    pub fn new() -> (registry: Registry)
        ensures
            registry@ == Ledger::empty(),
    {
        let registry = Registry {
            kitties: HashMap::new(),
            owners: HashMap::new(),
            accounts: HashMap::new(),
            count: 0,
        };
        proof {
            lemma_empty_wf();
            assert(registry@ =~~= Ledger::empty());
        }
        registry
    }

    /// Rebuilds a registry from records that were kept elsewhere: the counter
    /// and, kitty by kitty, owner, number and genome, each account's kitties in
    /// the order of its listing. Gives nothing where a number is zero, above
    /// the counter, or there twice.
    pub fn restore(count: KittyIndex, records: &Vec<Record>) -> (restored: Option<Registry>)
        ensures
            restored is Some <==> records_valid(count, records@),
            restored matches Some(registry) ==> registry@.wf() && registry@ == ledger_of_records(
                count,
                records@,
            ),
    {
        let mut kitties: HashMap<u128, Kitty> = HashMap::new();
        let mut owners: HashMap<KittyIndex, AccountId> = HashMap::new();
        let mut accounts: HashMap<AccountId, Vec<Entry>> = HashMap::new();
        proof {
            assert(records@.take(0) =~= Seq::<Record>::empty());
            assert(ledger_of(kitties@, owners@, accounts@, count) =~~= ledger_of_records(
                count,
                records@.take(0),
            ));
        }
        for i in 0..records.len()
            invariant
                records_valid(count, records@.take(i as int)),
                ledger_of(kitties@, owners@, accounts@, count) == ledger_of_records(
                    count,
                    records@.take(i as int),
                ),
        {
            let (owner, kitty_id, kitty) = records[i];
            let ghost seen = records@.take(i as int);
            let ghost before = ledger_of_records(count, seen);
            proof {
                lemma_records_numbers(count, seen, kitty_id);
                assert(records@.take(i + 1) =~= seen.push(records@[i as int]));
                assert(records@.take(i + 1).drop_last() =~= seen);
            }
            if kitty_id == 0 || kitty_id > count || owners.contains_key(&kitty_id) {
                proof {
                    if 0 < kitty_id <= count {
                        let j = choose|j: int| 0 <= j < seen.len() && (#[trigger] seen[j]).1 == kitty_id;
                        assert(records@[j].1 == records@[i as int].1);
                    }
                }
                return None;
            }
            let ghost store = kitties@;
            let ghost listings = accounts@;
            kitties.insert(slot(owner, kitty_id), kitty);
            owners.insert(kitty_id, owner);
            let mut kitty_vec = take_listing(&mut accounts, &owner);
            kitty_vec.push((kitty_id, kitty));
            accounts.insert(owner, kitty_vec);
            proof {
                lemma_store_insert(store, owner, kitty_id, kitty);
                lemma_listings_remove(listings, owner);
                lemma_listings_insert(listings.remove(owner), owner, kitty_vec);
                assert(ledger_of(kitties@, owners@, accounts@, count) =~~= before.enlist(
                    owner,
                    kitty_id,
                    kitty,
                ));
                let next = records@.take(i + 1);
                assert forall|a: int| 0 <= a < next.len() implies 0 < (#[trigger] next[a]).1
                    <= count by {
                    if a < seen.len() {
                        assert(next[a] == seen[a]);
                    }
                }
                assert forall|a: int, b: int| 0 <= a < b < next.len() implies (#[trigger] next[a]).1
                    != (#[trigger] next[b]).1 by {
                    assert(next[a] == seen[a]);
                    if b < seen.len() {
                        assert(next[b] == seen[b]);
                    }
                }
            }
        }
        proof {
            assert(records@.take(records.len() as int) =~= records@);
            lemma_records_wf(count, records@);
        }
        Some(Registry { kitties, owners, accounts, count })
    }

    /// The kitty `kitty_id` as `owner` holds it, if `owner` does.
    pub fn kitties(&self, owner: AccountId, kitty_id: KittyIndex) -> (kitty: Option<Kitty>)
        ensures
            self@.wf(),
            kitty == self@.lookup(owner, kitty_id),
    {
        proof {
            use_type_invariant(self);
        }
        match self.kitties.get(&slot(owner, kitty_id)) {
            Some(kitty) => Some(*kitty),
            None => None,
        }
    }

    /// The number given out last, or zero.
    pub fn kitties_count(&self) -> (count: KittyIndex)
        ensures
            self@.wf(),
            count == self@.count,
    {
        proof {
            use_type_invariant(self);
        }
        self.count
    }

    /// The owner of the kitty `kitty_id`, if there is such a kitty.
    pub fn kitty_owner(&self, kitty_id: KittyIndex) -> (owner: Option<AccountId>)
        ensures
            self@.wf(),
            owner == self@.owner_of(kitty_id),
    {
        proof {
            use_type_invariant(self);
        }
        match self.owners.get(&kitty_id) {
            Some(owner) => Some(*owner),
            None => None,
        }
    }

    /// The kitties of `owner`, in the order in which it got them.
    pub fn account_kitties(&self, owner: AccountId) -> (listing: Vec<Entry>)
        ensures
            self@.wf(),
            listing@ == self@.listing(owner),
    {
        proof {
            use_type_invariant(self);
        }
        let mut listing: Vec<Entry> = Vec::new();
        match self.accounts.get(&owner) {
            Some(kept) => {
                for i in 0..kept.len()
                    invariant
                        listing@ == kept@.take(i as int),
                {
                    listing.push(kept[i]);
                    assert(kept@.take(i + 1) =~= kept@.take(i as int).push(kept@[i as int]));
                }
                assert(kept@.take(kept.len() as int) =~= kept@);
            },
            None => {},
        }
        listing
    }

    /// The number for the next kitty: one above the counter, which stays as it
    /// is until the kitty is inserted.
    pub fn next_kitty_id(&self) -> (next: Result<KittyIndex, Error>)
        ensures
            self@.wf(),
            next == self@.next_id(),
    {
        proof {
            use_type_invariant(self);
        }
        match self.count.checked_add(1) {
            Some(kitty_id) => Ok(kitty_id),
            None => Err(Error::KittiesCountOverflow),
        }
    }

    /// Enters a new kitty into store, index and listing, and sets the counter
    /// to its number, which has to be above the counter. The maps are taken
    /// out of the registry, changed, and put back together, so that no one
    /// sees them disagree.
    pub fn insert_kitty(&mut self, owner: &AccountId, kitty_id: KittyIndex, kitty: Kitty) -> (done:
        Result<(), Error>)
        requires
            old(self)@.count < kitty_id,
        ensures
            final(self)@.wf(),
            final(self)@ == old(self)@.insert(*owner, kitty_id, kitty),
            done == Ok::<(), Error>(()),
    {
        proof {
            use_type_invariant(&*self);
        }
        let mut taken = Registry::new();
        std::mem::swap(self, &mut taken);
        let Registry { mut kitties, mut owners, mut accounts, count: _ } = taken;
        kitties.insert(slot(*owner, kitty_id), kitty);
        owners.insert(kitty_id, *owner);
        let mut kitty_vec = take_listing(&mut accounts, owner);
        kitty_vec.push((kitty_id, kitty));
        accounts.insert(*owner, kitty_vec);
        proof {
            lemma_store_insert(old(self).kitties@, *owner, kitty_id, kitty);
            lemma_listings_remove(old(self).accounts@, *owner);
            lemma_listings_insert(old(self).accounts@.remove(*owner), *owner, kitty_vec);
            assert(ledger_of(kitties@, owners@, accounts@, kitty_id) =~~= old(self)@.insert(
                *owner,
                kitty_id,
                kitty,
            ));
            lemma_insert_wf(old(self)@, *owner, kitty_id, kitty);
        }
        *self = Registry { kitties, owners, accounts, count: kitty_id };
        Ok(())
    }

    /// Creates a kitty for `sender`. Its genome is derived from the block's
    /// seed, the sender and the index of the extrinsic; its number is the next
    /// one. Fails, and changes nothing, only where the numbers have run out.
    pub fn create(&mut self, sender: AccountId, seed: &[u8; 32], extrinsic_index: Option<u32>) -> (created:
        Result<KittyIndex, Error>)
        ensures
            final(self)@.wf(),
            (final(self)@, created) == old(self)@.create(
                sender,
                random_value_of(seed@, sender, extrinsic_index),
            ),
    {
        let kitty_id = match self.next_kitty_id() {
            Ok(kitty_id) => kitty_id,
            Err(e) => {
                return Err(e);
            },
        };
        let dna = random_value(seed, &sender, extrinsic_index);
        let kitty = Kitty(dna);
        let _ = self.insert_kitty(&sender, kitty_id, kitty);
        Ok(kitty_id)
    }

    /// Hands the kitty `kitty_id` of `sender` over to `to`: it leaves the
    /// sender's listing, goes to the end of the receiver's, and store and index
    /// name the receiver as its owner. Fails, and changes nothing, where
    /// `sender` does not own the kitty.
    pub fn transfer(&mut self, sender: AccountId, to: AccountId, kitty_id: KittyIndex) -> (done:
        Result<(), Error>)
        ensures
            final(self)@.wf(),
            (final(self)@, done) == old(self)@.transfer(sender, to, kitty_id),
    {
        let kitty = match self.kitties(sender, kitty_id) {
            Some(kitty) => kitty,
            None => {
                return Err(Error::InvalidaKittyId);
            },
        };
        let mut taken = Registry::new();
        std::mem::swap(self, &mut taken);
        let Registry { mut kitties, mut owners, mut accounts, count } = taken;
        kitties.remove(&slot(sender, kitty_id));
        let sender_kitty_vec = take_listing(&mut accounts, &sender);
        let mut new_sender_k_vec: Vec<Entry> = Vec::new();
        proof {
            reveal(Seq::filter);
            assert(sender_kitty_vec@.take(0) =~= Seq::<Entry>::empty());
        }
        for i in 0..sender_kitty_vec.len()
            invariant
                new_sender_k_vec@ == sender_kitty_vec@.take(i as int).filter(other_than(kitty_id)),
        {
            let entry = sender_kitty_vec[i];
            proof {
                let seen = sender_kitty_vec@.take(i as int);
                assert(sender_kitty_vec@.take(i + 1) =~= seen.push(entry));
                seen.lemma_filter_push(entry, other_than(kitty_id));
            }
            if entry.0 != kitty_id {
                new_sender_k_vec.push(entry);
            }
        }
        assert(sender_kitty_vec@.take(sender_kitty_vec.len() as int) =~= sender_kitty_vec@);
        accounts.insert(sender, new_sender_k_vec);
        let mut to_kitty_vec = take_listing(&mut accounts, &to);
        to_kitty_vec.push((kitty_id, kitty));
        accounts.insert(to, to_kitty_vec);
        kitties.insert(slot(to, kitty_id), kitty);
        owners.insert(kitty_id, to);
        proof {
            let store = old(self).kitties@;
            lemma_store_remove(store, sender, kitty_id);
            lemma_store_insert(store.remove(slot_of(sender, kitty_id)), to, kitty_id, kitty);
            let a0 = old(self).accounts@;
            let a1 = a0.remove(sender);
            let a2 = a1.insert(sender, new_sender_k_vec);
            let a3 = a2.remove(to);
            lemma_listings_remove(a0, sender);
            lemma_listings_insert(a1, sender, new_sender_k_vec);
            lemma_listings_remove(a2, to);
            lemma_listings_insert(a3, to, to_kitty_vec);
            assert(ledger_of(kitties@, owners@, accounts@, count) =~~= old(self)@.transfer(
                sender,
                to,
                kitty_id,
            ).0);
            lemma_transfer_wf(old(self)@, sender, to, kitty_id);
        }
        *self = Registry { kitties, owners, accounts, count };
        Ok(())
    }

    /// Breeds a new kitty for `sender` from two of its own. Each bit of the
    /// child's genome comes from the first parent where the selector has a
    /// one and from the second where it has a zero; the selector is derived
    /// from the block's seed, the sender and the index of the extrinsic.
    /// Fails, and changes nothing, where `sender` does not own both parents,
    /// where the two are one kitty, or where the numbers have run out.
    pub fn do_breed(
        &mut self,
        sender: &AccountId,
        kitty_id_1: KittyIndex,
        kitty_id_2: KittyIndex,
        seed: &[u8; 32],
        extrinsic_index: Option<u32>,
    ) -> (bred: Result<KittyIndex, Error>)
        ensures
            final(self)@.wf(),
            (final(self)@, bred) == old(self)@.breed(
                *sender,
                kitty_id_1,
                kitty_id_2,
                random_value_of(seed@, *sender, extrinsic_index),
            ),
    {
        let kitty1 = match self.kitties(*sender, kitty_id_1) {
            Some(kitty) => kitty,
            None => {
                return Err(Error::InvalidaKittyId);
            },
        };
        let kitty2 = match self.kitties(*sender, kitty_id_2) {
            Some(kitty) => kitty,
            None => {
                return Err(Error::InvalidaKittyId);
            },
        };
        if kitty_id_1 == kitty_id_2 {
            return Err(Error::RequireDifferentParent);
        }
        let kitty_id = match self.next_kitty_id() {
            Ok(kitty_id) => kitty_id,
            Err(e) => {
                return Err(e);
            },
        };
        let kitty1_dna = kitty1.0;
        let kitty2_dna = kitty2.0;
        let selector = random_value(seed, sender, extrinsic_index);
        let new_dna = combine_genomes(&kitty1_dna, &kitty2_dna, &selector);
        let _ = self.insert_kitty(sender, kitty_id, Kitty(new_dna));
        Ok(kitty_id)
    }

    /// Breeds a new kitty for `sender` from two of its own, as `do_breed` does.
    pub fn breed(
        &mut self,
        sender: AccountId,
        kitty_id_1: KittyIndex,
        kitty_id_2: KittyIndex,
        seed: &[u8; 32],
        extrinsic_index: Option<u32>,
    ) -> (bred: Result<KittyIndex, Error>)
        ensures
            final(self)@.wf(),
            (final(self)@, bred) == old(self)@.breed(
                sender,
                kitty_id_1,
                kitty_id_2,
                random_value_of(seed@, sender, extrinsic_index),
            ),
    {
        self.do_breed(&sender, kitty_id_1, kitty_id_2, seed, extrinsic_index)
    }

    /// Settles the creation of the kitty `kitty_id` of `owner` once the
    /// balances have said whether the funds for it were reserved. Where they
    /// were, the kitty stays. Where they were not, the kitty is taken back, the
    /// counter with it, and the call reports the lack of funds. Fails with
    /// `InvalidaKittyId`, and changes nothing, where `owner` does not own the
    /// kitty, or where it is to be taken back and is not the latest.
    pub fn settle(&mut self, owner: AccountId, kitty_id: KittyIndex, reserved: bool) -> (settled:
        Result<KittyIndex, Error>)
        ensures
            final(self)@.wf(),
            (final(self)@, settled) == old(self)@.settle(owner, kitty_id, reserved),
    {
        proof {
            use_type_invariant(&*self);
        }
        if !self.kitties.contains_key(&slot(owner, kitty_id)) {
            return Err(Error::InvalidaKittyId);
        }
        if reserved {
            return Ok(kitty_id);
        }
        let at_end = match self.accounts.get(&owner) {
            Some(listing) => listing.len() > 0 && listing[listing.len() - 1].0 == kitty_id,
            None => false,
        };
        if kitty_id == 0 || kitty_id != self.count || !at_end {
            return Err(Error::InvalidaKittyId);
        }
        let mut taken = Registry::new();
        std::mem::swap(self, &mut taken);
        let Registry { mut kitties, mut owners, mut accounts, count: _ } = taken;
        kitties.remove(&slot(owner, kitty_id));
        owners.remove(&kitty_id);
        let mut kitty_vec = take_listing(&mut accounts, &owner);
        kitty_vec.pop();
        accounts.insert(owner, kitty_vec);
        proof {
            lemma_store_remove(old(self).kitties@, owner, kitty_id);
            lemma_listings_remove(old(self).accounts@, owner);
            lemma_listings_insert(old(self).accounts@.remove(owner), owner, kitty_vec);
            assert(ledger_of(kitties@, owners@, accounts@, (kitty_id - 1) as KittyIndex)
                =~~= old(self)@.revoke(owner, kitty_id));
            lemma_revoke_wf(old(self)@, owner, kitty_id);
        }
        *self = Registry { kitties, owners, accounts, count: kitty_id - 1 };
        Err(Error::InsufficientFunds)
    }
}

} // verus!
