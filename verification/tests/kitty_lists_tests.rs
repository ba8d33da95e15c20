use kitties::kitty_lists::{KittyError, Module};

#[test]
fn create_kitty_appends_and_counts() {
    let mut m = Module::new();
    assert_eq!(m.create_kitty(1, [1u8; 32]), Ok(()));
    assert_eq!(m.create_kitty(1, [2u8; 32]), Ok(()));
    assert_eq!(m.create_kitty(2, [3u8; 32]), Ok(()));
    assert_eq!(m.get_kitty_count(1), (3, 2));
    assert_eq!(m.get_kitty_count(2), (3, 1));
    assert_eq!(m.get_kitty_count(3), (3, 0));
    assert_eq!(m.kitties_count(), 3);
    let counts = m.owner_kitty_counts();
    assert_eq!(counts, vec![(1, 2), (2, 1)]);
    assert_eq!(KittyError::CountOverflow.message(), "error message");
}

#[test]
fn owner_relation_lists_kitties_in_creation_order() {
    let mut m = Module::new();
    m.create_kitty(4, [7u8; 32]).unwrap();
    m.create_kitty(4, [8u8; 32]).unwrap();
    let list = m.owner_relation_with_kitties(4);
    assert_eq!(list.len(), 2);
    assert_eq!(list[0].id, [7u8; 32]);
    assert_eq!(list[1].dna, [8u8; 32]);
    assert_eq!(list[1].price, 0);
    assert!(m.owner_relation_with_kitties(5).is_empty());
}

#[test]
fn kitties_count_is_total_of_lists() {
    let mut m = Module::new();
    for (owner, b) in [(1u64, 1u8), (2, 2), (1, 3), (3, 4), (2, 5)] {
        m.create_kitty(owner, [b; 32]).unwrap();
    }
    let total: usize = m.owner_kitty_counts().iter().map(|(_, n)| *n).sum();
    assert_eq!(total as u64, m.kitties_count());
    assert_eq!(m.kitties_count(), 5);
}
