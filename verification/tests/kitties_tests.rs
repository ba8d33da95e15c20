use kitties::kitties::{combine_dna, Kitty, KittyError, Module};

#[test]
fn combine_dna_takes_bits_by_selector() {
    assert_eq!(combine_dna(0b1010_1010, 0b0101_0101, 0b1111_0000), 0b1010_0101);
    assert_eq!(combine_dna(0xff, 0x00, 0x0f), 0x0f);
    assert_eq!(combine_dna(0x12, 0x34, 0xff), 0x12);
    assert_eq!(combine_dna(0x12, 0x34, 0x00), 0x34);
    assert_eq!(combine_dna(0x5a, 0x5a, 0x3c), 0x5a);
}

#[test]
fn create_stores_kitty_and_slot() {
    let mut m = Module::new();
    assert_eq!(m.create(7, [1u8; 16]), Ok(()));
    assert_eq!(m.create(7, [2u8; 16]), Ok(()));
    assert_eq!(m.create(8, [3u8; 16]), Ok(()));
    assert_eq!(m.kitties_count(), 3);
    assert_eq!(m.kitty(1).unwrap().0, [2u8; 16]);
    assert!(m.kitty(3).is_none());
    assert_eq!(m.owned_kitties(7, 0), Some(0));
    assert_eq!(m.owned_kitties(7, 1), Some(1));
    assert_eq!(m.owned_kitties(8, 0), Some(2));
    assert_eq!(m.owned_kitties_count(7), 2);
    assert_eq!(m.owned_kitties_count(8), 1);
    assert_eq!(m.owned_kitties_count(9), 0);
}

#[test]
fn next_kitty_id_is_count() {
    let mut m = Module::new();
    assert_eq!(m.next_kitty_id(), Ok(0));
    m.create(1, [0u8; 16]).unwrap();
    assert_eq!(m.next_kitty_id(), Ok(1));
}

#[test]
fn breed_mixes_parents() {
    let mut m = Module::new();
    m.create(1, [0xf0u8; 16]).unwrap();
    m.create(1, [0x0fu8; 16]).unwrap();
    let mut selector = [0xffu8; 16];
    selector[0] = 0x00;
    selector[1] = 0x3c;
    assert_eq!(m.do_breed(2, 0, 1, selector), Ok(()));
    let child = m.kitty(2).unwrap();
    assert_eq!(child.0[0], 0x0f);
    assert_eq!(child.0[1], 0x33);
    assert_eq!(child.0[2], 0xf0);
    assert_eq!(m.owned_kitties(2, 0), Some(2));
}

#[test]
fn kitty_breed_errors() {
    let mut m = Module::new();
    m.create(1, [0u8; 16]).unwrap();
    assert_eq!(m.do_breed(1, 5, 0, [0u8; 16]), Err(KittyError::InvalidKittyId1));
    assert_eq!(m.do_breed(1, 0, 5, [0u8; 16]), Err(KittyError::InvalidKittyId2));
    assert_eq!(m.do_breed(1, 0, 0, [0u8; 16]), Err(KittyError::SameParent));
    assert_eq!(m.kitties_count(), 1);
    assert_eq!(KittyError::SameParent.message(), "Needs different parent");
    assert_eq!(KittyError::InvalidKittyId1.message(), "Invalid kitty_id_1");
}

#[test]
fn transfer_moves_kitty_and_compacts_slots() {
    let mut m = Module::new();
    m.create(1, [0u8; 16]).unwrap();
    m.create(1, [1u8; 16]).unwrap();
    m.create(1, [2u8; 16]).unwrap();
    assert_eq!(m.transfer_kitty(1, 0, 2), Ok(()));
    assert_eq!(m.owned_kitties(2, 0), Some(0));
    assert_eq!(m.owned_kitties_count(2), 1);
    assert_eq!(m.owned_kitties(1, 0), Some(2));
    assert_eq!(m.owned_kitties(1, 1), Some(1));
    assert_eq!(m.owned_kitties(1, 2), None);
    assert_eq!(m.owned_kitties_count(1), 2);
}

#[test]
fn transfer_of_last_slot_lowers_count() {
    let mut m = Module::new();
    m.create(1, [0u8; 16]).unwrap();
    m.create(1, [1u8; 16]).unwrap();
    assert_eq!(m.transfer_kitty(1, 1, 2), Ok(()));
    assert_eq!(m.owned_kitties(1, 1), None);
    assert_eq!(m.owned_kitties(1, 0), Some(0));
    assert_eq!(m.owned_kitties_count(1), 1);
    assert_eq!(m.owned_kitties(2, 0), Some(1));
    assert_eq!(m.owned_kitties_count(2), 1);
}

#[test]
fn transfers_empty_the_sender_one_by_one() {
    let mut m = Module::new();
    m.create(1, [0u8; 16]).unwrap();
    m.create(1, [1u8; 16]).unwrap();
    m.transfer_kitty(1, 1, 2).unwrap();
    assert_eq!(m.transfer_kitty(1, 0, 2), Ok(()));
    assert_eq!(m.owned_kitties(1, 0), None);
    assert_eq!(m.owned_kitties_count(1), 0);
    assert_eq!(m.owned_kitties(2, 0), Some(1));
    assert_eq!(m.owned_kitties(2, 1), Some(0));
    assert_eq!(m.owned_kitties_count(2), 2);
}

#[test]
fn transfer_to_self_keeps_count_and_kitties() {
    let mut m = Module::new();
    m.create(1, [0u8; 16]).unwrap();
    m.create(1, [1u8; 16]).unwrap();
    m.create(1, [2u8; 16]).unwrap();
    assert_eq!(m.transfer_kitty(1, 0, 1), Ok(()));
    assert_eq!(m.owned_kitties_count(1), 3);
    assert_eq!(m.owned_kitties(1, 0), Some(2));
    assert_eq!(m.owned_kitties(1, 1), Some(1));
    assert_eq!(m.owned_kitties(1, 2), Some(0));
    assert_eq!(m.owned_kitties(1, 3), None);
    assert_eq!(m.transfer_kitty(1, 2, 1), Ok(()));
    assert_eq!(m.owned_kitties_count(1), 3);
    assert_eq!(m.owned_kitties(1, 2), Some(0));
}

#[test]
fn transfer_errors() {
    let mut m = Module::new();
    m.create(1, [0u8; 16]).unwrap();
    assert_eq!(m.transfer_kitty(1, 3, 2), Err(KittyError::NotOwned));
    assert_eq!(m.transfer_kitty(2, 0, 1), Err(KittyError::NotOwned));
    assert_eq!(m.search_own_kitty(1, 0), Ok(0));
    assert_eq!(m.search_own_kitty(1, 1), Err(KittyError::NotOwned));
    assert_eq!(KittyError::NotOwned.message(), "Account dosen't own the kitty!");
}

#[test]
fn remove_and_insert_own_kitty() {
    let mut m = Module::new();
    m.insert_kitty(5, 0, Kitty([0u8; 16]));
    m.insert_kitty(5, 1, Kitty([1u8; 16]));
    m.remove_own_kitty(5, 0);
    assert_eq!(m.owned_kitties(5, 0), Some(1));
    assert_eq!(m.owned_kitties_count(5), 1);
    m.insert_own_kitty(6, 4, 0);
    assert_eq!(m.owned_kitties(6, 4), Some(0));
    assert_eq!(m.owned_kitties_count(6), 5);
}

#[test]
fn insert_then_remove_own_kitty_restores() {
    let mut m = Module::new();
    m.create(3, [0u8; 16]).unwrap();
    m.create(3, [1u8; 16]).unwrap();
    m.insert_own_kitty(3, 2, 0);
    m.remove_own_kitty(3, 2);
    assert_eq!(m.owned_kitties_count(3), 2);
    assert_eq!(m.owned_kitties(3, 0), Some(0));
    assert_eq!(m.owned_kitties(3, 1), Some(1));
    assert_eq!(m.owned_kitties(3, 2), None);
}

#[test]
fn ownership_stays_single_through_transfers() {
    let mut m = Module::new();
    for owner in [1u64, 1, 1, 2, 2] {
        m.create(owner, [owner as u8; 16]).unwrap();
    }
    m.transfer_kitty(1, 0, 2).unwrap();
    m.transfer_kitty(2, 1, 3).unwrap();
    m.transfer_kitty(1, 1, 3).unwrap();
    m.transfer_kitty(3, 0, 3).unwrap();
    let mut seen = Vec::new();
    for owner in [1u64, 2, 3] {
        let count = m.owned_kitties_count(owner);
        for slot in 0..count {
            let id = m.owned_kitties(owner, slot).expect("slot filled");
            assert!(!seen.contains(&id));
            seen.push(id);
        }
    }
    seen.sort();
    assert_eq!(seen, vec![0, 1, 2, 3, 4]);
    assert_eq!(m.kitties_count(), 5);
}

#[test]
fn every_kitty_has_exactly_one_owner() {
    let mut m = Module::new();
    m.create(1, [0u8; 16]).unwrap();
    m.create(2, [1u8; 16]).unwrap();
    m.do_breed(1, 0, 1, [0x0fu8; 16]).unwrap();
    m.transfer_kitty(1, 1, 2).unwrap();
    m.transfer_kitty(2, 0, 2).unwrap();
    m.transfer_kitty(2, 1, 3).unwrap();
    for id in 0..m.kitties_count() {
        let mut holders = 0;
        for owner in 0u64..5 {
            for slot in 0..m.owned_kitties_count(owner) {
                if m.owned_kitties(owner, slot) == Some(id) {
                    holders += 1;
                }
            }
        }
        assert_eq!(holders, 1);
    }
}
