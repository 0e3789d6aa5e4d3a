use kitties::dna::combine_genomes;
use kitties::entropy::random_value;
use kitties::registry::Registry;
use kitties::types::{Error, Kitty};

const SEED: [u8; 32] = [0u8; 32];

fn ids(listing: &Vec<(u32, Kitty)>) -> Vec<u32> {
    listing.iter().map(|entry| entry.0).collect()
}

#[test]
fn can_create_kitty() {
    let mut registry = Registry::new();
    assert_eq!(registry.create(1, &SEED, Some(0)), Ok(1));

    let kt = Kitty([39, 140, 77, 194, 163, 1, 154, 220, 108, 18, 30, 32, 100, 223, 46, 1]);
    assert_eq!(registry.kitties(1, 1), Some(kt.clone()));
    assert_eq!(registry.kitties_count(), 1);
    assert_eq!(registry.kitty_owner(1), Some(1));
}

#[test]
fn can_transfer() {
    let mut registry = Registry::new();
    assert_eq!(registry.create(1, &SEED, Some(0)), Ok(1));

    assert_eq!(registry.kitties_count(), 1);

    let kt = registry.kitties(1, 1);
    assert_eq!(registry.transfer(1, 2, 0), Err(Error::InvalidaKittyId));
    assert_eq!(registry.kitties_count(), 1);
    assert_eq!(registry.kitties(1, 1), kt);
    assert_eq!(registry.kitty_owner(1), Some(1));
    assert_eq!(ids(&registry.account_kitties(1)), vec![1]);
    assert_eq!(registry.account_kitties(2), vec![]);

    assert_eq!(registry.transfer(1, 2, 1), Ok(()));
    assert_eq!(registry.kitty_owner(1), Some(2));
}

#[test]
fn can_breed() {
    let mut registry = Registry::new();
    assert_eq!(registry.create(1, &SEED, Some(0)), Ok(1));
    assert_eq!(registry.create(1, &SEED, Some(0)), Ok(2));

    assert_eq!(registry.breed(1, 0, 3, &SEED, Some(0)), Err(Error::InvalidaKittyId));
    assert_eq!(registry.kitties_count(), 2);
    assert_eq!(ids(&registry.account_kitties(1)), vec![1, 2]);

    assert_eq!(registry.breed(1, 1, 1, &SEED, Some(0)), Err(Error::RequireDifferentParent));
    assert_eq!(registry.kitties_count(), 2);
    assert_eq!(ids(&registry.account_kitties(1)), vec![1, 2]);

    assert_eq!(registry.breed(1, 1, 2, &SEED, Some(0)), Ok(3));

    let kt = Kitty([39, 140, 77, 194, 163, 1, 154, 220, 108, 18, 30, 32, 100, 223, 46, 1]);
    assert_eq!(registry.kitties(1, 3), Some(kt.clone()));
    assert_eq!(registry.kitties_count(), 3);
    assert_eq!(registry.kitty_owner(3), Some(1));
}

#[test]
fn new_registry_is_empty() {
    let registry = Registry::new();
    assert_eq!(registry.kitties_count(), 0);
    assert_eq!(registry.kitties(1, 1), None);
    assert_eq!(registry.kitty_owner(1), None);
    assert_eq!(registry.account_kitties(1), vec![]);
    assert_eq!(registry.next_kitty_id(), Ok(1));
}

#[test]
fn next_kitty_id_leaves_the_counter() {
    let mut registry = Registry::new();
    assert_eq!(registry.next_kitty_id(), Ok(1));
    assert_eq!(registry.next_kitty_id(), Ok(1));
    assert_eq!(registry.kitties_count(), 0);
    assert_eq!(registry.create(9, &SEED, None), Ok(1));
    assert_eq!(registry.next_kitty_id(), Ok(2));
    assert_eq!(registry.kitties_count(), 1);
}

#[test]
fn insert_kitty_fills_all_three_views() {
    let mut registry = Registry::new();
    let kitty = Kitty([5u8; 16]);
    assert_eq!(registry.insert_kitty(&3, 7, kitty), Ok(()));
    assert_eq!(registry.kitties(3, 7), Some(kitty));
    assert_eq!(registry.kitty_owner(7), Some(3));
    assert_eq!(registry.account_kitties(3), vec![(7, kitty)]);
    assert_eq!(registry.kitties_count(), 7);
    assert_eq!(registry.next_kitty_id(), Ok(8));
}

#[test]
fn numbers_run_out_at_the_maximum() {
    let mut registry = Registry::new();
    let kitty = Kitty([1u8; 16]);
    assert_eq!(registry.insert_kitty(&1, u32::MAX - 1, kitty), Ok(()));
    assert_eq!(registry.create(1, &SEED, Some(0)), Ok(u32::MAX));
    assert_eq!(registry.next_kitty_id(), Err(Error::KittiesCountOverflow));
    assert_eq!(registry.create(1, &SEED, Some(1)), Err(Error::KittiesCountOverflow));
    assert_eq!(
        registry.breed(1, u32::MAX - 1, u32::MAX, &SEED, Some(2)),
        Err(Error::KittiesCountOverflow)
    );
    assert_eq!(registry.kitties_count(), u32::MAX);
    assert_eq!(ids(&registry.account_kitties(1)), vec![u32::MAX - 1, u32::MAX]);
}

#[test]
fn numbers_are_given_out_in_order_from_one() {
    let mut registry = Registry::new();
    assert_eq!(registry.create(4, &SEED, Some(0)), Ok(1));
    assert_eq!(registry.create(5, &SEED, Some(1)), Ok(2));
    assert_eq!(registry.create(4, &SEED, Some(2)), Ok(3));
    assert_eq!(registry.breed(4, 1, 3, &SEED, Some(3)), Ok(4));
    assert_eq!(registry.transfer(4, 5, 1), Ok(()));
    assert_eq!(registry.create(5, &SEED, Some(4)), Ok(5));
    assert_eq!(registry.breed(5, 2, 1, &SEED, Some(5)), Ok(6));
    assert_eq!(registry.kitties_count(), 6);
}

#[test]
fn every_kitty_is_held_and_listed_once_by_its_owner() {
    let mut registry = Registry::new();
    for index in 0..6u32 {
        let owner = (index % 3) as u64 + 1;
        assert_eq!(registry.create(owner, &SEED, Some(index)), Ok(index + 1));
    }
    assert_eq!(registry.transfer(1, 2, 4), Ok(()));
    assert_eq!(registry.transfer(2, 3, 2), Ok(()));
    assert_eq!(registry.transfer(3, 3, 3), Ok(()));
    assert_eq!(registry.breed(3, 6, 2, &SEED, Some(6)), Ok(7));
    assert_eq!(registry.transfer(3, 1, 7), Ok(()));
    for id in 1..=7u32 {
        let owner = registry.kitty_owner(id).unwrap();
        let kitty = registry.kitties(owner, id).unwrap();
        let listing = registry.account_kitties(owner);
        assert_eq!(listing.iter().filter(|entry| entry.0 == id).count(), 1);
        assert!(listing.contains(&(id, kitty)));
        for other in 1..=3u64 {
            if other != owner {
                assert_eq!(registry.kitties(other, id), None);
                assert!(!ids(&registry.account_kitties(other)).contains(&id));
            }
        }
    }
    assert_eq!(registry.kitty_owner(8), None);
    assert_eq!(ids(&registry.account_kitties(1)), vec![1, 7]);
    assert_eq!(ids(&registry.account_kitties(2)), vec![5, 4]);
    assert_eq!(ids(&registry.account_kitties(3)), vec![6, 2, 3]);
}

#[test]
fn transfer_moves_the_kitty_and_keeps_its_genome() {
    let mut registry = Registry::new();
    assert_eq!(registry.create(1, &SEED, Some(0)), Ok(1));
    assert_eq!(registry.create(1, &SEED, Some(1)), Ok(2));
    assert_eq!(registry.create(2, &SEED, Some(2)), Ok(3));
    let genome = registry.kitties(1, 1).unwrap();
    assert_eq!(registry.transfer(1, 2, 1), Ok(()));
    assert_eq!(registry.kitties(1, 1), None);
    assert_eq!(registry.kitties(2, 1), Some(genome));
    assert_eq!(registry.kitty_owner(1), Some(2));
    assert_eq!(ids(&registry.account_kitties(1)), vec![2]);
    assert_eq!(ids(&registry.account_kitties(2)), vec![3, 1]);
    assert_eq!(registry.account_kitties(2)[1], (1, genome));
    assert_eq!(registry.kitties_count(), 3);
}

#[test]
fn transfer_needs_the_owner() {
    let mut registry = Registry::new();
    assert_eq!(registry.create(1, &SEED, Some(0)), Ok(1));
    assert_eq!(registry.transfer(2, 3, 1), Err(Error::InvalidaKittyId));
    assert_eq!(registry.transfer(1, 2, 2), Err(Error::InvalidaKittyId));
    assert_eq!(registry.kitty_owner(1), Some(1));
    assert_eq!(ids(&registry.account_kitties(1)), vec![1]);
    assert_eq!(registry.account_kitties(2), vec![]);
    assert_eq!(registry.account_kitties(3), vec![]);
}

#[test]
fn transfer_to_oneself_keeps_ownership() {
    let mut registry = Registry::new();
    assert_eq!(registry.create(1, &SEED, Some(0)), Ok(1));
    assert_eq!(registry.create(1, &SEED, Some(1)), Ok(2));
    assert_eq!(registry.create(1, &SEED, Some(2)), Ok(3));
    let genome = registry.kitties(1, 1).unwrap();
    assert_eq!(registry.transfer(1, 1, 1), Ok(()));
    assert_eq!(registry.kitties(1, 1), Some(genome));
    assert_eq!(registry.kitty_owner(1), Some(1));
    assert_eq!(registry.kitties_count(), 3);
    assert_eq!(ids(&registry.account_kitties(1)), vec![2, 3, 1]);
    assert_eq!(registry.transfer(1, 1, 1), Ok(()));
    assert_eq!(ids(&registry.account_kitties(1)), vec![2, 3, 1]);
}

#[test]
fn lookup_under_another_owner_finds_nothing() {
    let mut registry = Registry::new();
    assert_eq!(registry.create(1, &SEED, Some(0)), Ok(1));
    assert!(registry.kitties(1, 1).is_some());
    assert_eq!(registry.kitties(2, 1), None);
    assert_eq!(registry.kitties(1, 2), None);
    assert_eq!(registry.kitties(0, 1), None);
}

#[test]
fn breeding_combines_the_parents_under_the_selector() {
    let mut registry = Registry::new();
    assert_eq!(registry.create(1, &SEED, Some(0)), Ok(1));
    assert_eq!(registry.create(1, &SEED, Some(1)), Ok(2));
    let parent1 = registry.kitties(1, 1).unwrap();
    let parent2 = registry.kitties(1, 2).unwrap();
    assert_ne!(parent1, parent2);
    assert_eq!(registry.breed(1, 1, 2, &SEED, Some(2)), Ok(3));
    let child = registry.kitties(1, 3).unwrap();
    let selector = random_value(&SEED, &1, Some(2));
    for i in 0..16 {
        assert_eq!(child.0[i], (selector[i] & parent1.0[i]) | (!selector[i] & parent2.0[i]));
    }
    assert_eq!(child.0, combine_genomes(&parent1.0, &parent2.0, &selector));
    assert_eq!(registry.kitties(1, 1), Some(parent1));
    assert_eq!(registry.kitties(1, 2), Some(parent2));
    assert_eq!(ids(&registry.account_kitties(1)), vec![1, 2, 3]);
}

#[test]
fn breeding_is_repeatable() {
    let seed = [9u8; 32];
    let mut first = Registry::new();
    let mut second = Registry::new();
    assert_eq!(second.create(8, &seed, Some(5)), Ok(1));
    for registry in [&mut first, &mut second] {
        registry.create(1, &seed, Some(0)).unwrap();
        registry.create(1, &seed, Some(1)).unwrap();
    }
    let child1 = first.breed(1, 1, 2, &seed, Some(2)).unwrap();
    let child2 = second.breed(1, 2, 3, &seed, Some(2)).unwrap();
    assert_eq!((child1, child2), (3, 4));
    assert_eq!(first.kitties(1, child1), second.kitties(1, child2));
    assert!(first.kitties(1, child1).is_some());
}

#[test]
fn breeding_order_of_parents_matters() {
    let mut registry = Registry::new();
    registry.insert_kitty(&1, 1, Kitty([0xFF; 16])).unwrap();
    registry.insert_kitty(&1, 2, Kitty([0x00; 16])).unwrap();
    let selector = random_value(&SEED, &1, Some(0));
    assert_eq!(registry.breed(1, 1, 2, &SEED, Some(0)), Ok(3));
    assert_eq!(registry.breed(1, 2, 1, &SEED, Some(0)), Ok(4));
    let mut inverse = [0u8; 16];
    for i in 0..16 {
        inverse[i] = !selector[i];
    }
    assert_eq!(registry.kitties(1, 3), Some(Kitty(selector)));
    assert_eq!(registry.kitties(1, 4), Some(Kitty(inverse)));
}

#[test]
fn breeding_rejects_what_it_must() {
    let mut registry = Registry::new();
    assert_eq!(registry.create(1, &SEED, Some(0)), Ok(1));
    assert_eq!(registry.create(1, &SEED, Some(1)), Ok(2));
    assert_eq!(registry.create(2, &SEED, Some(2)), Ok(3));
    assert_eq!(registry.breed(1, 1, 1, &SEED, Some(3)), Err(Error::RequireDifferentParent));
    assert_eq!(registry.breed(1, 2, 2, &SEED, Some(3)), Err(Error::RequireDifferentParent));
    assert_eq!(registry.breed(1, 1, 3, &SEED, Some(3)), Err(Error::InvalidaKittyId));
    assert_eq!(registry.breed(1, 3, 2, &SEED, Some(3)), Err(Error::InvalidaKittyId));
    assert_eq!(registry.breed(1, 1, 9, &SEED, Some(3)), Err(Error::InvalidaKittyId));
    assert_eq!(registry.breed(2, 1, 2, &SEED, Some(3)), Err(Error::InvalidaKittyId));
    assert_eq!(registry.breed(1, 3, 3, &SEED, Some(3)), Err(Error::InvalidaKittyId));
    assert_eq!(registry.breed(1, 9, 9, &SEED, Some(3)), Err(Error::InvalidaKittyId));
    assert_eq!(registry.do_breed(&1, 1, 1, &SEED, Some(3)), Err(Error::RequireDifferentParent));
    assert_eq!(registry.kitties_count(), 3);
    assert_eq!(ids(&registry.account_kitties(1)), vec![1, 2]);
    assert_eq!(ids(&registry.account_kitties(2)), vec![3]);
    assert_eq!(registry.do_breed(&1, 2, 1, &SEED, Some(3)), Ok(4));
}

#[test]
fn creation_without_funds_leaves_no_trace() {
    let mut registry = Registry::new();
    assert_eq!(registry.create(1, &SEED, Some(0)), Ok(1));
    assert_eq!(registry.create(2, &SEED, Some(1)), Ok(2));
    let before = (registry.account_kitties(1), registry.account_kitties(2));
    assert_eq!(registry.create(1, &SEED, Some(2)), Ok(3));
    assert_eq!(registry.settle(1, 3, false), Err(Error::InsufficientFunds));
    assert_eq!(registry.kitties_count(), 2);
    assert_eq!(registry.kitties(1, 3), None);
    assert_eq!(registry.kitty_owner(3), None);
    assert_eq!((registry.account_kitties(1), registry.account_kitties(2)), before);
    assert_eq!(registry.next_kitty_id(), Ok(3));
    assert_eq!(registry.create(2, &SEED, Some(3)), Ok(3));
}

#[test]
fn first_creation_without_funds_leaves_an_empty_registry() {
    let mut registry = Registry::new();
    assert_eq!(registry.create(1, &SEED, Some(0)), Ok(1));
    assert_eq!(registry.settle(1, 1, false), Err(Error::InsufficientFunds));
    assert_eq!(registry.kitties_count(), 0);
    assert_eq!(registry.account_kitties(1), vec![]);
    assert_eq!(registry.kitties(1, 1), None);
    assert_eq!(registry.kitty_owner(1), None);
}

#[test]
fn creation_with_funds_stays() {
    let mut registry = Registry::new();
    assert_eq!(registry.create(1, &SEED, Some(0)), Ok(1));
    let kitty = registry.kitties(1, 1);
    assert_eq!(registry.settle(1, 1, true), Ok(1));
    assert_eq!(registry.kitties_count(), 1);
    assert_eq!(registry.kitties(1, 1), kitty);
    assert_eq!(ids(&registry.account_kitties(1)), vec![1]);
}

#[test]
fn breeding_without_funds_is_undone() {
    let mut registry = Registry::new();
    assert_eq!(registry.create(1, &SEED, Some(0)), Ok(1));
    assert_eq!(registry.create(1, &SEED, Some(1)), Ok(2));
    assert_eq!(registry.breed(1, 1, 2, &SEED, Some(2)), Ok(3));
    assert_eq!(registry.settle(1, 3, false), Err(Error::InsufficientFunds));
    assert_eq!(registry.kitties_count(), 2);
    assert_eq!(ids(&registry.account_kitties(1)), vec![1, 2]);
    assert_eq!(registry.kitties(1, 3), None);
}

#[test]
fn only_the_latest_kitty_can_be_taken_back() {
    let mut registry = Registry::new();
    assert_eq!(registry.create(1, &SEED, Some(0)), Ok(1));
    assert_eq!(registry.create(1, &SEED, Some(1)), Ok(2));
    assert_eq!(registry.settle(1, 1, false), Err(Error::InvalidaKittyId));
    assert_eq!(registry.settle(2, 2, false), Err(Error::InvalidaKittyId));
    assert_eq!(registry.settle(1, 3, false), Err(Error::InvalidaKittyId));
    assert_eq!(registry.settle(1, 3, true), Err(Error::InvalidaKittyId));
    assert_eq!(registry.settle(1, 0, false), Err(Error::InvalidaKittyId));
    assert_eq!(registry.kitties_count(), 2);
    assert_eq!(ids(&registry.account_kitties(1)), vec![1, 2]);
    assert_eq!(registry.settle(1, 1, true), Ok(1));
}

#[test]
fn example_scenario() {
    let mut registry = Registry::new();
    assert_eq!(registry.create(1, &SEED, Some(0)), Ok(1));
    let g1 = registry.kitties(1, 1).unwrap();
    assert_eq!(registry.create(1, &SEED, Some(1)), Ok(2));
    let g2 = registry.kitties(1, 2).unwrap();
    assert_ne!(g1, g2);
    assert_eq!(registry.breed(1, 1, 2, &SEED, Some(2)), Ok(3));
    let g3 = registry.kitties(1, 3).unwrap();
    let selector = random_value(&SEED, &1, Some(2));
    assert_eq!(g3, Kitty(combine_genomes(&g1.0, &g2.0, &selector)));
    assert_eq!(registry.transfer(1, 2, 3), Ok(()));
    assert_eq!(registry.kitty_owner(3), Some(2));
    assert_eq!(registry.kitties(2, 3), Some(g3));
    assert_eq!(registry.account_kitties(2), vec![(3, g3)]);
    assert_eq!(registry.account_kitties(1), vec![(1, g1), (2, g2)]);
    assert_eq!(registry.kitties(1, 3), None);
    assert_eq!(registry.kitties_count(), 3);
}

#[test]
fn restore_rebuilds_all_three_views() {
    let a = Kitty([1u8; 16]);
    let b = Kitty([2u8; 16]);
    let c = Kitty([3u8; 16]);
    let records = vec![(7, 3, c), (9, 1, a), (7, 2, b)];
    let registry = Registry::restore(5, &records).unwrap();
    assert_eq!(registry.kitties_count(), 5);
    assert_eq!(registry.account_kitties(7), vec![(3, c), (2, b)]);
    assert_eq!(registry.account_kitties(9), vec![(1, a)]);
    assert_eq!(registry.account_kitties(8), vec![]);
    assert_eq!(registry.kitties(7, 3), Some(c));
    assert_eq!(registry.kitties(7, 2), Some(b));
    assert_eq!(registry.kitties(9, 1), Some(a));
    assert_eq!(registry.kitties(9, 2), None);
    assert_eq!(registry.kitty_owner(1), Some(9));
    assert_eq!(registry.kitty_owner(2), Some(7));
    assert_eq!(registry.kitty_owner(3), Some(7));
    assert_eq!(registry.kitty_owner(4), None);
    assert_eq!(registry.next_kitty_id(), Ok(6));
}

#[test]
fn restore_of_nothing_keeps_the_counter() {
    let mut registry = Registry::restore(u32::MAX, &vec![]).unwrap();
    assert_eq!(registry.kitties_count(), u32::MAX);
    assert_eq!(registry.create(1, &SEED, Some(0)), Err(Error::KittiesCountOverflow));
    let mut empty = Registry::restore(0, &vec![]).unwrap();
    assert_eq!(empty.create(1, &SEED, Some(0)), Ok(1));
}

#[test]
fn restore_rejects_numbers_out_of_range_or_twice() {
    let k = Kitty([0u8; 16]);
    assert!(Registry::restore(3, &vec![(1, 0, k)]).is_none());
    assert!(Registry::restore(3, &vec![(1, 4, k)]).is_none());
    assert!(Registry::restore(0, &vec![(1, 1, k)]).is_none());
    assert!(Registry::restore(3, &vec![(1, 2, k), (1, 2, k)]).is_none());
    assert!(Registry::restore(3, &vec![(1, 2, k), (2, 3, k), (3, 2, k)]).is_none());
    assert!(Registry::restore(3, &vec![(1, 1, k), (1, 2, k), (2, 3, k)]).is_some());
}

#[test]
fn restore_continues_where_the_registry_stood() {
    let mut registry = Registry::new();
    assert_eq!(registry.create(1, &SEED, Some(0)), Ok(1));
    assert_eq!(registry.create(2, &SEED, Some(1)), Ok(2));
    assert_eq!(registry.create(1, &SEED, Some(2)), Ok(3));
    assert_eq!(registry.transfer(1, 2, 1), Ok(()));
    let mut records = Vec::new();
    for owner in [2u64, 1u64] {
        for (id, kitty) in registry.account_kitties(owner) {
            records.push((owner, id, kitty));
        }
    }
    let mut restored = Registry::restore(registry.kitties_count(), &records).unwrap();
    for owner in 1..=2u64 {
        assert_eq!(restored.account_kitties(owner), registry.account_kitties(owner));
        for id in 0..=4u32 {
            assert_eq!(restored.kitties(owner, id), registry.kitties(owner, id));
        }
    }
    for id in 0..=4u32 {
        assert_eq!(restored.kitty_owner(id), registry.kitty_owner(id));
    }
    assert_eq!(restored.breed(2, 2, 1, &SEED, Some(3)), registry.breed(2, 2, 1, &SEED, Some(3)));
    assert_eq!(restored.kitties(2, 4), registry.kitties(2, 4));
    assert_eq!(restored.settle(2, 4, false), Err(Error::InsufficientFunds));
    assert_eq!(ids(&restored.account_kitties(2)), vec![2, 1]);
    assert_eq!(restored.kitties_count(), 3);
}
