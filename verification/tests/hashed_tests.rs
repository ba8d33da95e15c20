use kitties::avalon;
use kitties::hash_index::HashIndexed;
use kitties::hashed_kitties::{self, KittyError};

fn h(b: u8) -> [u8; 32] {
    let mut x = [0u8; 32];
    x[0] = b;
    x[31] = b.wrapping_add(1);
    x
}

#[test]
fn hash_indexed_last_write_wins() {
    let mut m: HashIndexed<u64> = HashIndexed::new();
    assert_eq!(m.get(&h(1)), None);
    m.insert(h(1), 10);
    m.insert(h(2), 20);
    m.insert(h(1), 11);
    assert_eq!(m.get(&h(1)), Some(11));
    assert_eq!(m.get(&h(2)), Some(20));
    assert!(m.contains_key(&h(2)));
    assert!(!m.contains_key(&h(3)));
    let mut near = h(1);
    near[8] = 1;
    assert!(!m.contains_key(&near));
    m.insert(near, 12);
    assert_eq!(m.get(&near), Some(12));
    assert_eq!(m.get(&h(1)), Some(11));
}

#[test]
fn hashed_kitties_create() {
    let mut m = hashed_kitties::Module::new();
    let e = m.create_kitty(7, h(1)).unwrap();
    assert!(matches!(e, hashed_kitties::Event::Created(7, id) if id == h(1)));
    m.create_kitty(8, h(2)).unwrap();
    assert_eq!(m.kitties_count(), 2);
    assert_eq!(m.nonce(), 2);
    assert_eq!(m.kitties_array(0), h(1));
    assert_eq!(m.kitties_array(1), h(2));
    assert_eq!(m.kitties_array(2), [0u8; 32]);
    assert_eq!(m.owner_of_kitty(&h(2)), Some(8));
    assert_eq!(m.owner_of_kitty(&h(3)), None);
    assert_eq!(m.kitty_of_owner(7), h(1));
    assert_eq!(m.kitty_of_owner(9), [0u8; 32]);
    let k = m.kitty(&h(1));
    assert_eq!(k.id, h(1));
    assert_eq!(k.dna, h(1));
    assert_eq!(k.price, 0);
    assert_eq!(k.gen, 0);
    assert_eq!(m.kitty(&h(9)).id, [0u8; 32]);
}

#[test]
fn hashed_kitties_refuses_existing_id() {
    let mut m = hashed_kitties::Module::new();
    m.create_kitty(7, h(1)).unwrap();
    assert_eq!(m.create_kitty(8, h(1)).unwrap_err(), KittyError::IdExists);
    assert_eq!(m.kitties_count(), 1);
    assert_eq!(m.nonce(), 1);
    assert_eq!(m.owner_of_kitty(&h(1)), Some(7));
    assert_eq!(KittyError::IdExists.message(), "This new id already exists");
    assert_eq!(KittyError::CountOverflow.message(), "Overflow adding a new person");
}

#[test]
fn avalon_values() {
    let mut m = avalon::Module::new();
    assert_eq!(m.something(), None);
    let e = m.do_something(3, 42);
    assert!(matches!(e, avalon::Event::SomeU32Stored(42, 3)));
    assert_eq!(m.something(), Some(42));
    let e = m.do_avbool(3, true);
    assert!(matches!(e, avalon::Event::SomeBoolStored(true, 3)));
    assert_eq!(m.my_bool_getter(), Some(true));
    m.do_avu32(4, 9);
    assert_eq!(m.avu32(), Some(9));
    m.do_mapu32(5, 77);
    assert_eq!(m.acc_bal(5), Some(77));
    assert_eq!(m.acc_bal(6), None);
}

#[test]
fn avalon_create_gundam() {
    let mut m = avalon::Module::new();
    let e = m.create_gundam(1, h(5)).unwrap();
    assert!(matches!(e, avalon::Event::Created(1, id) if id == h(5)));
    assert_eq!(m.all_gundams_count(), 1);
    assert_eq!(m.gundam_by_index(0), h(5));
    assert_eq!(m.owner_of(&h(5)), Some(1));
    assert_eq!(m.gundam_of_owner(1), h(5));
    assert_eq!(m.gundam(&h(5)).dna, h(5));
    assert_eq!(m.nonce(), 1);
    assert_eq!(m.create_gundam(2, h(5)).unwrap_err(), avalon::GundamError::GundamExists);
    assert_eq!(avalon::GundamError::GundamExists.message(), "Gundam already exists");
}
