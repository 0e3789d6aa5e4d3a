//! What a single call promises, stated over the ledger before and after it.

use crate::consistency::{lemma_filter_other_than, lemma_listed_is_owned, lemma_transfer_wf};
use crate::dna::{combined, lemma_combined_bytes};
use crate::entropy::random_value_of;
use crate::history::lemma_ownership_consistent;
use crate::ledger::{distinct_ids, listed, listed_once, other_than, Ledger};
use crate::types::{AccountId, Error, Kitty, KittyIndex};
use vstd::prelude::*;

verus! {

/// A kitty that is created gets the number one above the counter, a number
/// that no kitty has; the counter then stands at it, and the owner holds the
/// kitty under it, at the end of its listing.
pub proof fn lemma_create_gives_next_number(pre: Ledger, owner: AccountId, dna: [u8; 16])
    requires
        pre.wf(),
        pre.count < KittyIndex::MAX,
    ensures
        pre.create(owner, dna).1 == Ok::<KittyIndex, Error>((pre.count + 1) as KittyIndex),
        !pre.owners.contains_key((pre.count + 1) as KittyIndex),
        pre.create(owner, dna).0.count == pre.count + 1,
        pre.create(owner, dna).0.lookup(owner, (pre.count + 1) as KittyIndex) == Some(Kitty(dna)),
        pre.create(owner, dna).0.owner_of((pre.count + 1) as KittyIndex) == Some(owner),
        pre.create(owner, dna).0.listing(owner) == pre.listing(owner).push(
            ((pre.count + 1) as KittyIndex, Kitty(dna)),
        ),
{
}

/// After a kitty has gone from one account to another, the giver no longer
/// holds it and has it in no line of its listing; the receiver holds it, with
/// the genome that it had, and has it in one line of its listing.
pub proof fn lemma_transfer_moves_kitty(pre: Ledger, from: AccountId, to: AccountId, id: KittyIndex)
    requires
        pre.wf(),
        pre.owns(from, id),
        from != to,
    ensures
        pre.transfer(from, to, id).1 == Ok::<(), Error>(()),
        pre.transfer(from, to, id).0.lookup(from, id) is None,
        pre.transfer(from, to, id).0.lookup(to, id) == pre.lookup(from, id),
        pre.transfer(from, to, id).0.owner_of(id) == Some(to),
        !listed(pre.transfer(from, to, id).0.listing(from), id),
        listed_once(pre.transfer(from, to, id).0.listing(to), id),
        pre.transfer(from, to, id).0.count == pre.count,
{
    let post = pre.transfer(from, to, id).0;
    lemma_transfer_wf(pre, from, to, id);
    lemma_ownership_consistent(post, id);
    assert(distinct_ids(pre.accounts[from]));
    lemma_filter_other_than(pre.accounts[from], id);
    assert(post.listing(from) == pre.accounts[from].filter(other_than(id)));
}

/// A transfer touches no kitty but the one that it names, and no listing but
/// those of the giver and the receiver.
pub proof fn lemma_transfer_keeps_others(
    pre: Ledger,
    from: AccountId,
    to: AccountId,
    id: KittyIndex,
    owner: AccountId,
    other: KittyIndex,
)
    requires
        pre.wf(),
        pre.owns(from, id),
        other != id,
    ensures
        pre.transfer(from, to, id).0.lookup(owner, other) == pre.lookup(owner, other),
        pre.transfer(from, to, id).0.owner_of(other) == pre.owner_of(other),
        owner != from && owner != to ==> pre.transfer(from, to, id).0.listing(owner) == pre.listing(
            owner,
        ),
{
}

/// A transfer of a kitty to the account that owns it changes nothing of who
/// owns what: store, index and counter stay, as does every other listing, and
/// the owner's own listing holds the lines that it held, the kitty's now last.
pub proof fn lemma_transfer_to_self(pre: Ledger, owner: AccountId, id: KittyIndex)
    requires
        pre.wf(),
        pre.owns(owner, id),
    ensures
        pre.transfer(owner, owner, id).1 == Ok::<(), Error>(()),
        pre.transfer(owner, owner, id).0.kitties == pre.kitties,
        pre.transfer(owner, owner, id).0.owners == pre.owners,
        pre.transfer(owner, owner, id).0.count == pre.count,
        forall|other: AccountId|
            other != owner ==> #[trigger] pre.transfer(owner, owner, id).0.listing(other)
                == pre.listing(other),
        pre.transfer(owner, owner, id).0.listing(owner).last() == (id, pre.kitties[(owner, id)]),
        forall|entry: (KittyIndex, Kitty)|
            pre.transfer(owner, owner, id).0.listing(owner).contains(entry) <==> pre.listing(
                owner,
            ).contains(entry),
{
    let post = pre.transfer(owner, owner, id).0;
    let kitty = pre.kitties[(owner, id)];
    let before = pre.accounts[owner];
    let kept = before.filter(other_than(id));
    let grown = kept.push((id, kitty));
    assert(post.kitties =~= pre.kitties);
    assert(post.owners =~= pre.owners);
    assert(post.listing(owner) == grown);
    assert(distinct_ids(before));
    lemma_filter_other_than(before, id);
    assert forall|entry: (KittyIndex, Kitty)| grown.contains(entry) <==> before.contains(entry) by {
        if grown.contains(entry) {
            let i = choose|i: int| 0 <= i < grown.len() && grown[i] == entry;
            if i < kept.len() {
                assert(grown[i] == kept[i]);
                assert(before.contains(kept[i]));
            } else {
                assert(before.contains((id, kitty)));
            }
        }
        if before.contains(entry) {
            let i = choose|i: int| 0 <= i < before.len() && before[i] == entry;
            if entry.0 != id {
                assert(kept.contains(before[i]));
                let j = choose|j: int| 0 <= j < kept.len() && kept[j] == entry;
                assert(grown[j] == entry);
            } else {
                lemma_listed_is_owned(pre, owner, i);
                assert(grown[kept.len() as int] == entry);
            }
        }
    }
}

/// A kitty that is bred gets the next number, and each byte of its genome
/// takes its bits from the first parent where the selector has a one and
/// from the second where it has a zero.
pub proof fn lemma_breed_combines_parents(
    pre: Ledger,
    owner: AccountId,
    id1: KittyIndex,
    id2: KittyIndex,
    selector: [u8; 16],
)
    requires
        pre.wf(),
        pre.owns(owner, id1),
        pre.owns(owner, id2),
        id1 != id2,
        pre.count < KittyIndex::MAX,
    ensures
        pre.breed(owner, id1, id2, selector).1 == Ok::<KittyIndex, Error>(
            (pre.count + 1) as KittyIndex,
        ),
        pre.breed(owner, id1, id2, selector).0.lookup(owner, (pre.count + 1) as KittyIndex) == Some(
            Kitty(combined(pre.kitties[(owner, id1)].0, pre.kitties[(owner, id2)].0, selector)),
        ),
        forall|i: int|
            0 <= i < 16 ==> #[trigger] combined(
                pre.kitties[(owner, id1)].0,
                pre.kitties[(owner, id2)].0,
                selector,
            )[i] == (selector[i] & pre.kitties[(owner, id1)].0[i]) | (!selector[i]
                & pre.kitties[(owner, id2)].0[i]),
        pre.breed(owner, id1, id2, selector).0.lookup(owner, id1) == pre.lookup(owner, id1),
        pre.breed(owner, id1, id2, selector).0.lookup(owner, id2) == pre.lookup(owner, id2),
{
    lemma_combined_bytes(pre.kitties[(owner, id1)].0, pre.kitties[(owner, id2)].0, selector);
    assert(pre.owners.contains_key(id1) && pre.owners.contains_key(id2));
}

/// Breeding is repeatable: under one seed, one account and one extrinsic
/// index, parents of the same genomes give a child of the same genome,
/// whatever else the two ledgers hold and whatever numbers the kitties have.
pub proof fn lemma_breeding_deterministic(
    a: Ledger,
    b: Ledger,
    owner: AccountId,
    a1: KittyIndex,
    a2: KittyIndex,
    b1: KittyIndex,
    b2: KittyIndex,
    seed: Seq<u8>,
    extrinsic_index: Option<u32>,
)
    requires
        a.wf(),
        b.wf(),
        a.lookup(owner, a1) is Some,
        a.lookup(owner, a1) == b.lookup(owner, b1),
        a.lookup(owner, a2) is Some,
        a.lookup(owner, a2) == b.lookup(owner, b2),
        a.breed(owner, a1, a2, random_value_of(seed, owner, extrinsic_index)).1 is Ok,
        b.breed(owner, b1, b2, random_value_of(seed, owner, extrinsic_index)).1 is Ok,
    ensures
        ({
            let selector = random_value_of(seed, owner, extrinsic_index);
            let (after_a, bred_a) = a.breed(owner, a1, a2, selector);
            let (after_b, bred_b) = b.breed(owner, b1, b2, selector);
            &&& after_a.lookup(owner, bred_a->Ok_0) is Some
            &&& after_a.lookup(owner, bred_a->Ok_0) == after_b.lookup(owner, bred_b->Ok_0)
        }),
{
}

/// Breeding turns down a kitty paired with itself, and any pair of which the
/// account does not own both. The parents are looked up first: a kitty that
/// the account does not own is reported as such even when paired with itself.
/// A call that is turned down changes nothing.
pub proof fn lemma_breed_rejections(
    pre: Ledger,
    owner: AccountId,
    id1: KittyIndex,
    id2: KittyIndex,
    selector: [u8; 16],
)
    ensures
        pre.owns(owner, id1) ==> pre.breed(owner, id1, id1, selector) == (
            pre,
            Err::<KittyIndex, Error>(Error::RequireDifferentParent),
        ),
        !pre.owns(owner, id1) || !pre.owns(owner, id2) ==> pre.breed(owner, id1, id2, selector) == (
            pre,
            Err::<KittyIndex, Error>(Error::InvalidaKittyId),
        ),
        pre.breed(owner, id1, id2, selector).1 is Err ==> pre.breed(owner, id1, id2, selector).0
            == pre,
{
}

/// A creation whose funds could not be reserved leaves no trace: after the
/// settlement the ledger is what it was before the creation, counter and
/// listings included.
pub proof fn lemma_failed_reserve_leaves_no_trace(pre: Ledger, owner: AccountId, dna: [u8; 16])
    requires
        pre.wf(),
        pre.create(owner, dna).1 is Ok,
    ensures
        pre.create(owner, dna).0.settle(owner, pre.create(owner, dna).1->Ok_0, false) == (
            pre,
            Err::<KittyIndex, Error>(Error::InsufficientFunds),
        ),
        pre.create(owner, dna).0.settle(owner, pre.create(owner, dna).1->Ok_0, false).0.count
            == pre.count,
        pre.create(owner, dna).0.settle(owner, pre.create(owner, dna).1->Ok_0, false).0.listing(
            owner,
        ) == pre.listing(owner),
{
    let id = (pre.count + 1) as KittyIndex;
    let mid = pre.create(owner, dna).0;
    assert(!pre.owners.contains_key(id));
    assert(!pre.kitties.contains_key((owner, id)));
    assert(mid.is_latest(owner, id));
    let back = mid.revoke(owner, id);
    assert(back.accounts[owner] =~= pre.accounts[owner]);
    assert(back =~~= pre);
}

/// The same holds of a kitty that was bred and whose funds could not be
/// reserved.
pub proof fn lemma_failed_reserve_undoes_breeding(
    pre: Ledger,
    owner: AccountId,
    id1: KittyIndex,
    id2: KittyIndex,
    selector: [u8; 16],
)
    requires
        pre.wf(),
        pre.breed(owner, id1, id2, selector).1 is Ok,
    ensures
        pre.breed(owner, id1, id2, selector).0.settle(
            owner,
            pre.breed(owner, id1, id2, selector).1->Ok_0,
            false,
        ) == (pre, Err::<KittyIndex, Error>(Error::InsufficientFunds)),
{
    let dna = combined(pre.kitties[(owner, id1)].0, pre.kitties[(owner, id2)].0, selector);
    lemma_failed_reserve_leaves_no_trace(pre, owner, dna);
}

/// A settlement with the funds reserved keeps the kitty and changes nothing.
pub proof fn lemma_reserved_keeps_kitty(pre: Ledger, owner: AccountId, id: KittyIndex)
    requires
        pre.owns(owner, id),
    ensures
        pre.settle(owner, id, true) == (pre, Ok::<KittyIndex, Error>(id)),
{
}

} // verus!
