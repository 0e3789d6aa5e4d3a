//! Every call leaves a well-formed ledger well-formed.

use crate::dna::combined;
use crate::ledger::{
    distinct_ids, ledger_of_records, other_than, records_valid, Entry, Ledger, Record,
};
use crate::types::{AccountId, Kitty, KittyIndex};
use vstd::prelude::*;

verus! {

/// Taking the lines about one kitty out of a listing keeps the other lines,
/// adds none, and keeps the numbers distinct.
pub proof fn lemma_filter_other_than(listing: Seq<Entry>, id: KittyIndex)
    requires
        distinct_ids(listing),
    ensures
        distinct_ids(listing.filter(other_than(id))),
        forall|j: int|
            0 <= j < listing.filter(other_than(id)).len() ==> {
                &&& (#[trigger] listing.filter(other_than(id))[j]).0 != id
                &&& listing.contains(listing.filter(other_than(id))[j])
            },
        forall|i: int|
            0 <= i < listing.len() && listing[i].0 != id ==> listing.filter(
                other_than(id),
            ).contains(#[trigger] listing[i]),
    decreases listing.len(),
{
    reveal(Seq::filter);
    let kept = listing.filter(other_than(id));
    if listing.len() > 0 {
        let init = listing.drop_last();
        let last = listing.last();
        assert(distinct_ids(init)) by {
            assert forall|i: int, j: int| 0 <= i < j < init.len() implies (#[trigger] init[i]).0 != (
            #[trigger] init[j]).0 by {
                assert(init[i] == listing[i] && init[j] == listing[j]);
            }
        }
        lemma_filter_other_than(init, id);
        let kept_init = init.filter(other_than(id));
        assert forall|j: int| 0 <= j < kept.len() implies (#[trigger] kept[j]).0 != id
            && listing.contains(kept[j]) by {
            if j < kept_init.len() {
                assert(kept[j] == kept_init[j]);
                assert(init.contains(kept_init[j]));
                let k = choose|k: int| 0 <= k < init.len() && init[k] == kept_init[j];
                assert(listing[k] == kept[j]);
            } else {
                assert(kept[j] == last);
                assert(listing[listing.len() - 1] == last);
            }
        }
        assert forall|i: int| 0 <= i < listing.len() && listing[i].0 != id implies kept.contains(
            #[trigger] listing[i],
        ) by {
            if i < init.len() {
                assert(init[i] == listing[i]);
                assert(kept_init.contains(init[i]));
                let k = choose|k: int| 0 <= k < kept_init.len() && kept_init[k] == init[i];
                assert(kept[k] == listing[i]);
            } else {
                assert(kept[kept.len() - 1] == listing[i]);
            }
        }
        assert forall|i: int, j: int| 0 <= i < j < kept.len() implies (#[trigger] kept[i]).0 != (
        #[trigger] kept[j]).0 by {
            if j < kept_init.len() {
                assert(kept[i] == kept_init[i] && kept[j] == kept_init[j]);
            } else {
                assert(kept[j] == last);
                assert(kept[i] == kept_init[i]);
                assert(init.contains(kept_init[i]));
                let k = choose|k: int| 0 <= k < init.len() && init[k] == kept_init[i];
                assert(listing[k] == kept[i]);
                assert(listing[listing.len() - 1] == last);
            }
        }
    }
}

/// The empty ledger is well-formed.
pub proof fn lemma_empty_wf()
    ensures
        Ledger::empty().wf(),
{
}

/// A kitty whose number no kitty has can be added, whether the counter stays
/// or rises, as long as the counter ends at or above that number.
proof fn lemma_add_wf(pre: Ledger, owner: AccountId, id: KittyIndex, kitty: Kitty, count: KittyIndex)
    requires
        pre.wf(),
        !pre.owners.contains_key(id),
        0 < id <= count,
        pre.count <= count,
    ensures
        (Ledger { count: count, ..pre.enlist(owner, id, kitty) }).wf(),
{
    let post = Ledger { count: count, ..pre.enlist(owner, id, kitty) };
    let old_listing = pre.accounts[owner];
    let new_listing = post.accounts[owner];
    assert(new_listing[old_listing.len() as int] == (id, kitty));
    assert forall|o: AccountId, i: KittyIndex| #[trigger]
        post.kitties.contains_key((o, i)) implies post.owners.contains_key(i) && post.owners[i] == o
        && post.accounts[o].contains((i, post.kitties[(o, i)])) by {
        if o == owner && i == id {
        } else {
            assert(pre.kitties.contains_key((o, i)));
            assert(pre.owners.contains_key(i));
            let k = choose|k: int|
                0 <= k < pre.accounts[o].len() && pre.accounts[o][k] == (i, pre.kitties[(o, i)]);
            assert(post.accounts[o][k] == (i, post.kitties[(o, i)]));
        }
    }
    assert forall|o: AccountId, k: int| 0 <= k < post.accounts[o].len() implies post.lookup(
        o,
        (#[trigger] post.accounts[o][k]).0,
    ) == Some(post.accounts[o][k].1) by {
        if o == owner && k == old_listing.len() {
        } else {
            assert(post.accounts[o][k] == pre.accounts[o][k]);
            lemma_listed_is_owned(pre, o, k);
        }
    }
    assert forall|o: AccountId| distinct_ids(#[trigger] post.accounts[o]) by {
        assert(distinct_ids(pre.accounts[o]));
        if o == owner {
            assert forall|i: int, j: int| 0 <= i < j < new_listing.len() implies (
            #[trigger] new_listing[i]).0 != (#[trigger] new_listing[j]).0 by {
                assert(new_listing[i] == old_listing[i]);
                lemma_listed_is_owned(pre, owner, i);
                if j < old_listing.len() {
                    assert(new_listing[j] == old_listing[j]);
                }
            }
        }
    }
}

/// A kitty whose number is above the counter can be inserted.
pub proof fn lemma_insert_wf(pre: Ledger, owner: AccountId, id: KittyIndex, kitty: Kitty)
    requires
        pre.wf(),
        pre.count < id,
    ensures
        pre.insert(owner, id, kitty).wf(),
{
    lemma_add_wf(pre, owner, id, kitty, id);
}

/// A kitty whose number no kitty has, and which the counter has reached, can
/// be added to the ledger.
pub proof fn lemma_enlist_wf(pre: Ledger, owner: AccountId, id: KittyIndex, kitty: Kitty)
    requires
        pre.wf(),
        !pre.owners.contains_key(id),
        0 < id <= pre.count,
    ensures
        pre.enlist(owner, id, kitty).wf(),
{
    lemma_add_wf(pre, owner, id, kitty, pre.count);
}

/// The index of the ledger of some records knows the numbers of the records
/// and no others.
pub proof fn lemma_records_numbers(count: KittyIndex, records: Seq<Record>, id: KittyIndex)
    ensures
        ledger_of_records(count, records).owners.contains_key(id) <==> exists|i: int|
            0 <= i < records.len() && (#[trigger] records[i]).1 == id,
        ledger_of_records(count, records).count == count,
    decreases records.len(),
{
    if records.len() > 0 {
        let earlier = records.drop_last();
        lemma_records_numbers(count, earlier, id);
        if ledger_of_records(count, records).owners.contains_key(id) {
            if records.last().1 == id {
                assert(records[records.len() - 1].1 == id);
            } else {
                let i = choose|i: int| 0 <= i < earlier.len() && (#[trigger] earlier[i]).1 == id;
                assert(records[i].1 == id);
            }
        }
        if exists|i: int| 0 <= i < records.len() && (#[trigger] records[i]).1 == id {
            let i = choose|i: int| 0 <= i < records.len() && (#[trigger] records[i]).1 == id;
            if i < earlier.len() {
                assert(earlier[i].1 == id);
            }
        }
    }
}

/// The ledger of valid records is well-formed.
pub proof fn lemma_records_wf(count: KittyIndex, records: Seq<Record>)
    requires
        records_valid(count, records),
    ensures
        ledger_of_records(count, records).wf(),
    decreases records.len(),
{
    if records.len() > 0 {
        let earlier = records.drop_last();
        let last = records.last();
        assert forall|i: int| 0 <= i < earlier.len() implies 0 < (#[trigger] earlier[i]).1
            <= count by {
            assert(earlier[i] == records[i]);
        }
        assert forall|i: int, j: int| 0 <= i < j < earlier.len() implies (#[trigger] earlier[i]).1
            != (#[trigger] earlier[j]).1 by {
            assert(earlier[i] == records[i] && earlier[j] == records[j]);
        }
        lemma_records_wf(count, earlier);
        lemma_records_numbers(count, earlier, last.1);
        if ledger_of_records(count, earlier).owners.contains_key(last.1) {
            let i = choose|i: int| 0 <= i < earlier.len() && (#[trigger] earlier[i]).1 == last.1;
            assert(records[i].1 == records[records.len() - 1].1);
        }
        assert(0 < records[records.len() - 1].1 <= count);
        lemma_enlist_wf(ledger_of_records(count, earlier), last.0, last.1, last.2);
    }
}

/// In a well-formed ledger a kitty stands in no listing but its owner's.
pub proof fn lemma_listed_is_owned(pre: Ledger, owner: AccountId, k: int)
    requires
        pre.wf(),
        0 <= k < pre.accounts[owner].len(),
    ensures
        pre.owns(owner, pre.accounts[owner][k].0),
        pre.owners.contains_key(pre.accounts[owner][k].0),
        pre.owners[pre.accounts[owner][k].0] == owner,
        pre.kitties[(owner, pre.accounts[owner][k].0)] == pre.accounts[owner][k].1,
{
    assert(pre.lookup(owner, pre.accounts[owner][k].0) == Some(pre.accounts[owner][k].1));
}

/// A transfer leaves the ledger well-formed, whoever gives and whoever gets.
pub proof fn lemma_transfer_wf(pre: Ledger, from: AccountId, to: AccountId, id: KittyIndex)
    requires
        pre.wf(),
    ensures
        pre.transfer(from, to, id).0.wf(),
{
    if pre.owns(from, id) {
        let post = pre.transfer(from, to, id).0;
        let kitty = pre.kitties[(from, id)];
        let kept = pre.accounts[from].filter(other_than(id));
        let taken = pre.accounts.insert(from, kept);
        let base = taken[to];
        let grown = base.push((id, kitty));
        assert(distinct_ids(pre.accounts[from]));
        lemma_filter_other_than(pre.accounts[from], id);
        assert(post.accounts[to] == grown);
        assert(grown[base.len() as int] == (id, kitty));
        assert(pre.owners[id] == from);
        // No line of the listing that grows is about the kitty that moves.
        assert forall|k: int| 0 <= k < base.len() implies (#[trigger] base[k]).0 != id
            && pre.lookup(to, base[k].0) == Some(base[k].1) by {
            if to == from {
                assert(base == kept);
                assert(pre.accounts[from].contains(kept[k]));
                let m = choose|m: int| 0 <= m < pre.accounts[from].len() && pre.accounts[from][m] == kept[k];
                lemma_listed_is_owned(pre, from, m);
            } else {
                assert(base == pre.accounts[to]);
                lemma_listed_is_owned(pre, to, k);
            }
        }
        assert forall|i: KittyIndex| #[trigger] post.owners.contains_key(i) implies 0 < i
            <= post.count && post.owns(post.owners[i], i) by {
            if i != id {
                assert(pre.owners.contains_key(i));
            }
        }
        assert forall|o: AccountId, i: KittyIndex| #[trigger]
            post.kitties.contains_key((o, i)) implies post.owners.contains_key(i) && post.owners[i]
            == o && post.accounts[o].contains((i, post.kitties[(o, i)])) by {
            if o == to && i == id {
            } else {
                assert(pre.kitties.contains_key((o, i)));
                assert(i != id);
                let entry = (i, pre.kitties[(o, i)]);
                let m = choose|m: int| 0 <= m < pre.accounts[o].len() && pre.accounts[o][m] == entry;
                if o == from {
                    assert(kept.contains(pre.accounts[from][m]));
                    let n = choose|n: int| 0 <= n < kept.len() && kept[n] == entry;
                    if to == from {
                        assert(grown[n] == entry);
                    } else {
                        assert(post.accounts[o] == kept);
                    }
                } else if o == to {
                    assert(grown[m] == entry);
                } else {
                    assert(post.accounts[o] == pre.accounts[o]);
                }
            }
        }
        assert forall|o: AccountId, k: int| 0 <= k < post.accounts[o].len() implies post.lookup(
            o,
            (#[trigger] post.accounts[o][k]).0,
        ) == Some(post.accounts[o][k].1) by {
            if o == to {
                if k < base.len() {
                    assert(grown[k] == base[k]);
                }
            } else if o == from {
                assert(post.accounts[o] == kept);
                assert(pre.accounts[from].contains(kept[k]));
                let m = choose|m: int| 0 <= m < pre.accounts[from].len() && pre.accounts[from][m] == kept[k];
                lemma_listed_is_owned(pre, from, m);
            } else {
                assert(post.accounts[o] == pre.accounts[o]);
                lemma_listed_is_owned(pre, o, k);
            }
        }
        assert forall|o: AccountId| distinct_ids(#[trigger] post.accounts[o]) by {
            assert(distinct_ids(pre.accounts[o]));
            if o == to {
                assert(distinct_ids(base));
                assert forall|i: int, j: int| 0 <= i < j < grown.len() implies (#[trigger] grown[i]).0
                    != (#[trigger] grown[j]).0 by {
                    assert(grown[i] == base[i]);
                    if j < base.len() {
                        assert(grown[j] == base[j]);
                    }
                }
            }
        }
    }
}

/// Taking back the latest kitty leaves the ledger well-formed.
pub proof fn lemma_revoke_wf(pre: Ledger, owner: AccountId, id: KittyIndex)
    requires
        pre.wf(),
        pre.is_latest(owner, id),
    ensures
        pre.revoke(owner, id).wf(),
{
    let post = pre.revoke(owner, id);
    let old_listing = pre.accounts[owner];
    let new_listing = old_listing.drop_last();
    let last = old_listing.len() - 1;
    assert(distinct_ids(old_listing));
    assert(post.accounts[owner] == new_listing);
    assert forall|k: int| 0 <= k < new_listing.len() implies (#[trigger] new_listing[k]).0 != id by {
        assert(new_listing[k] == old_listing[k]);
        assert(old_listing[last].0 == id);
    }
    assert forall|i: KittyIndex| #[trigger] post.owners.contains_key(i) implies 0 < i <= post.count
        && post.owns(post.owners[i], i) by {
        assert(pre.owners.contains_key(i));
    }
    assert forall|o: AccountId, i: KittyIndex| #[trigger]
        post.kitties.contains_key((o, i)) implies post.owners.contains_key(i) && post.owners[i] == o
        && post.accounts[o].contains((i, post.kitties[(o, i)])) by {
        assert(pre.kitties.contains_key((o, i)));
        assert(pre.owners[id] == owner);
        assert(i != id);
        let entry = (i, pre.kitties[(o, i)]);
        let m = choose|m: int| 0 <= m < pre.accounts[o].len() && pre.accounts[o][m] == entry;
        if o == owner {
            assert(new_listing[m] == entry);
        }
    }
    assert forall|o: AccountId, k: int| 0 <= k < post.accounts[o].len() implies post.lookup(
        o,
        (#[trigger] post.accounts[o][k]).0,
    ) == Some(post.accounts[o][k].1) by {
        if o == owner {
            assert(new_listing[k] == old_listing[k]);
            lemma_listed_is_owned(pre, owner, k);
        } else {
            assert(post.accounts[o] == pre.accounts[o]);
            lemma_listed_is_owned(pre, o, k);
            assert(pre.owners[id] == owner);
        }
    }
    assert forall|o: AccountId| distinct_ids(#[trigger] post.accounts[o]) by {
        assert(distinct_ids(pre.accounts[o]));
        if o == owner {
            assert forall|i: int, j: int| 0 <= i < j < new_listing.len() implies (
            #[trigger] new_listing[i]).0 != (#[trigger] new_listing[j]).0 by {
                assert(new_listing[i] == old_listing[i] && new_listing[j] == old_listing[j]);
            }
        }
    }
}

/// Creating a kitty leaves the ledger well-formed.
pub proof fn lemma_create_wf(pre: Ledger, owner: AccountId, dna: [u8; 16])
    requires
        pre.wf(),
    ensures
        pre.create(owner, dna).0.wf(),
{
    if pre.count < KittyIndex::MAX {
        lemma_insert_wf(pre, owner, (pre.count + 1) as KittyIndex, Kitty(dna));
    }
}

/// Breeding leaves the ledger well-formed.
pub proof fn lemma_breed_wf(
    pre: Ledger,
    owner: AccountId,
    id1: KittyIndex,
    id2: KittyIndex,
    selector: [u8; 16],
)
    requires
        pre.wf(),
    ensures
        pre.breed(owner, id1, id2, selector).0.wf(),
{
    if pre.owns(owner, id1) && pre.owns(owner, id2) && id1 != id2 {
        let dna1 = pre.kitties[(owner, id1)].0;
        let dna2 = pre.kitties[(owner, id2)].0;
        lemma_create_wf(pre, owner, combined(dna1, dna2, selector));
    }
}

/// Settling a creation leaves the ledger well-formed.
pub proof fn lemma_settle_wf(pre: Ledger, owner: AccountId, id: KittyIndex, reserved: bool)
    requires
        pre.wf(),
    ensures
        pre.settle(owner, id, reserved).0.wf(),
{
    if pre.owns(owner, id) && !reserved && pre.is_latest(owner, id) {
        lemma_revoke_wf(pre, owner, id);
    }
}

} // verus!
