//! Sequences of calls, and what holds of the ledger after any of them.

use crate::consistency::{
    lemma_breed_wf, lemma_create_wf, lemma_empty_wf, lemma_settle_wf, lemma_transfer_wf,
};
use crate::ledger::{distinct_ids, listed_once, Ledger};
use crate::types::{AccountId, KittyIndex};
use vstd::prelude::*;

verus! {

/// A call upon the registry, with the genome or selector that it works with.
pub enum Call {
    /// `create` by `owner`, for a kitty of genome `dna`.
    Create { owner: AccountId, dna: [u8; 16] },
    /// `transfer` of the kitty `id` from `from` to `to`.
    Transfer { from: AccountId, to: AccountId, id: KittyIndex },
    /// `do_breed` by `owner` of the kitties `id1` and `id2` under `selector`.
    Breed { owner: AccountId, id1: KittyIndex, id2: KittyIndex, selector: [u8; 16] },
    /// `settle` of the kitty `id` of `owner`, the funds reserved or not.
    Settle { owner: AccountId, id: KittyIndex, reserved: bool },
}

impl Call {
    /// Whether the call can take a kitty back: a settlement without funds.
    pub open spec fn takes_back(self) -> bool {
        self matches Call::Settle { reserved, .. } && !reserved
    }
}

impl Ledger {
    /// The ledger after the call.
    pub open spec fn after(self, call: Call) -> Ledger {
        match call {
            Call::Create { owner, dna } => self.create(owner, dna).0,
            Call::Transfer { from, to, id } => self.transfer(from, to, id).0,
            Call::Breed { owner, id1, id2, selector } => self.breed(owner, id1, id2, selector).0,
            Call::Settle { owner, id, reserved } => self.settle(owner, id, reserved).0,
        }
    }

    /// The number that the call gives to a new kitty, if it makes one.
    pub open spec fn issued(self, call: Call) -> Option<KittyIndex> {
        match call {
            Call::Create { owner, dna } => match self.create(owner, dna).1 {
                Ok(id) => Some(id),
                Err(_) => None,
            },
            Call::Breed { owner, id1, id2, selector } => match self.breed(
                owner,
                id1,
                id2,
                selector,
            ).1 {
                Ok(id) => Some(id),
                Err(_) => None,
            },
            _ => None,
        }
    }
}

/// The ledger that the calls, made in order upon an empty registry, leave.
pub open spec fn ledger_after(calls: Seq<Call>) -> Ledger
    decreases calls.len(),
{
    if calls.len() == 0 {
        Ledger::empty()
    } else {
        ledger_after(calls.drop_last()).after(calls.last())
    }
}

/// The numbers that the calls, made in order upon an empty registry, give to
/// new kitties, in the order in which they give them.
pub open spec fn issued_by(calls: Seq<Call>) -> Seq<KittyIndex>
    decreases calls.len(),
{
    if calls.len() == 0 {
        Seq::empty()
    } else {
        let before = issued_by(calls.drop_last());
        match ledger_after(calls.drop_last()).issued(calls.last()) {
            Some(id) => before.push(id),
            None => before,
        }
    }
}

/// Whatever the calls, the ledger that they leave is well-formed.
pub proof fn lemma_ledger_after_wf(calls: Seq<Call>)
    ensures
        ledger_after(calls).wf(),
    decreases calls.len(),
{
    if calls.len() == 0 {
        lemma_empty_wf();
    } else {
        let before = ledger_after(calls.drop_last());
        lemma_ledger_after_wf(calls.drop_last());
        match calls.last() {
            Call::Create { owner, dna } => lemma_create_wf(before, owner, dna),
            Call::Transfer { from, to, id } => lemma_transfer_wf(before, from, to, id),
            Call::Breed { owner, id1, id2, selector } => lemma_breed_wf(
                before,
                owner,
                id1,
                id2,
                selector,
            ),
            Call::Settle { owner, id, reserved } => lemma_settle_wf(before, owner, id, reserved),
        }
    }
}

/// In a well-formed ledger, the owner that the index names for a kitty holds
/// it in the store, and the kitty stands once in that owner's listing.
pub proof fn lemma_ownership_consistent(ledger: Ledger, id: KittyIndex)
    requires
        ledger.wf(),
        ledger.owners.contains_key(id),
    ensures
        ledger.lookup(ledger.owners[id], id) is Some,
        listed_once(ledger.listing(ledger.owners[id]), id),
        ledger.listing(ledger.owners[id]).contains((id, ledger.kitties[(ledger.owners[id], id)])),
{
    let owner = ledger.owners[id];
    let listing = ledger.listing(owner);
    assert(ledger.kitties.contains_key((owner, id)));
    let entry = (id, ledger.kitties[(owner, id)]);
    assert(listing.contains(entry));
    let i = choose|i: int| 0 <= i < listing.len() && listing[i] == entry;
    assert(distinct_ids(listing));
    assert forall|j: int| 0 <= j < listing.len() && (#[trigger] listing[j]).0 == id implies j
        == i by {
        if j != i {
            assert(listing[i].0 == id);
        }
    }
    assert(listing[i].0 == id);
}

/// After any sequence of calls upon an empty registry, every kitty that the
/// index knows is held by the owner named there, and stands once in that
/// owner's listing.
pub proof fn lemma_ownership_consistent_after(calls: Seq<Call>, id: KittyIndex)
    requires
        ledger_after(calls).owners.contains_key(id),
    ensures
        ledger_after(calls).lookup(ledger_after(calls).owners[id], id) is Some,
        listed_once(ledger_after(calls).listing(ledger_after(calls).owners[id]), id),
{
    lemma_ledger_after_wf(calls);
    lemma_ownership_consistent(ledger_after(calls), id);
}

/// As long as no kitty is taken back, the numbers are given out in order:
/// the first new kitty gets one, each later one a number one higher, so no
/// two kitties get the same; and the counter stands at the number given out
/// last.
pub proof fn lemma_numbers_in_order(calls: Seq<Call>)
    requires
        forall|i: int| 0 <= i < calls.len() ==> !(#[trigger] calls[i]).takes_back(),
    ensures
        ledger_after(calls).count == issued_by(calls).len(),
        forall|k: int| 0 <= k < issued_by(calls).len() ==> #[trigger] issued_by(calls)[k] == k + 1,
        forall|j: int, k: int|
            0 <= j < k < issued_by(calls).len() ==> #[trigger] issued_by(calls)[j]
                < #[trigger] issued_by(calls)[k],
    decreases calls.len(),
{
    if calls.len() > 0 {
        let earlier = calls.drop_last();
        assert forall|i: int| 0 <= i < earlier.len() implies !(#[trigger] earlier[i]).takes_back() by {
            assert(earlier[i] == calls[i]);
        }
        lemma_numbers_in_order(earlier);
        assert(!calls[calls.len() - 1].takes_back());
    }
}

} // verus!
