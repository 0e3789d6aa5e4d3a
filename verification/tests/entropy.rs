use kitties::dna::{combine_dna, combine_genomes};
use kitties::entropy::{random_lock_id, random_value};

const SEED: [u8; 32] = [0u8; 32];

#[test]
fn random_value_of_first_account_in_first_extrinsic() {
    let dna = random_value(&SEED, &1, Some(0));
    assert_eq!(dna, [39, 140, 77, 194, 163, 1, 154, 220, 108, 18, 30, 32, 100, 223, 46, 1]);
}

#[test]
fn random_value_outside_any_extrinsic() {
    let dna = random_value(&SEED, &1, None);
    assert_eq!(dna, [94, 85, 93, 3, 146, 178, 228, 254, 65, 171, 235, 35, 69, 153, 176, 209]);
}

#[test]
fn random_value_depends_on_the_extrinsic_index() {
    let dna = random_value(&SEED, &1, Some(1));
    assert_eq!(dna, [218, 106, 58, 53, 251, 38, 50, 121, 75, 194, 158, 244, 192, 220, 106, 225]);
    assert_ne!(dna, random_value(&SEED, &1, Some(0)));
}

#[test]
fn random_value_depends_on_the_sender() {
    let dna = random_value(&SEED, &2, None);
    assert_eq!(dna, [94, 203, 227, 59, 39, 59, 13, 117, 71, 134, 180, 35, 102, 126, 26, 39]);
}

#[test]
fn random_value_depends_on_the_seed() {
    let mut seed = SEED;
    seed[31] = 1;
    assert_ne!(random_value(&seed, &1, Some(0)), random_value(&SEED, &1, Some(0)));
}

#[test]
fn random_value_is_repeatable() {
    let seed = [7u8; 32];
    assert_eq!(random_value(&seed, &42, Some(9)), random_value(&seed, &42, Some(9)));
}

#[test]
fn random_lock_id_known_values() {
    assert_eq!(random_lock_id(&SEED, &1, None), [159, 92, 14, 6, 132, 11, 171, 130]);
    assert_eq!(random_lock_id(&SEED, &2, Some(7)), [182, 180, 170, 10, 117, 138, 45, 108]);
}

#[test]
fn random_lock_id_is_repeatable() {
    let seed = [3u8; 32];
    assert_eq!(random_lock_id(&seed, &5, Some(1)), random_lock_id(&seed, &5, Some(1)));
    assert_ne!(random_lock_id(&seed, &5, Some(1)), random_lock_id(&seed, &6, Some(1)));
}

#[test]
fn combine_dna_takes_bits_by_selector() {
    assert_eq!(combine_dna(0b1111_0000, 0b1010_1010, 0b1100_1100), 0b1110_0010);
    assert_eq!(combine_dna(0xAB, 0xCD, 0xFF), 0xAB);
    assert_eq!(combine_dna(0xAB, 0xCD, 0x00), 0xCD);
    assert_eq!(combine_dna(0x12, 0x12, 0x5A), 0x12);
}

#[test]
fn combine_genomes_combines_every_byte() {
    let mut dna1 = [0u8; 16];
    let mut dna2 = [0u8; 16];
    let mut selector = [0u8; 16];
    for i in 0..16 {
        dna1[i] = (i as u8) * 17;
        dna2[i] = 255 - (i as u8) * 3;
        selector[i] = (i as u8) * 29 + 5;
    }
    let child = combine_genomes(&dna1, &dna2, &selector);
    for i in 0..16 {
        assert_eq!(child[i], (selector[i] & dna1[i]) | (!selector[i] & dna2[i]));
    }
    assert_eq!(combine_genomes(&dna1, &dna2, &[0xFF; 16]), dna1);
    assert_eq!(combine_genomes(&dna1, &dna2, &[0x00; 16]), dna2);
    assert_eq!(
        combine_genomes(&[0b1111_0000; 16], &[0b1010_1010; 16], &[0b1100_1100; 16]),
        [0b1110_0010; 16]
    );
}
