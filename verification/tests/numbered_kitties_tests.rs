use kitties::numbered_kitties::{KittyError, Module};

#[test]
fn create_reads_dna_little_endian() {
    let mut m = Module::new();
    let mut random = [0u8; 16];
    random[0] = 2;
    random[1] = 1;
    assert_eq!(m.create(random), Ok(()));
    assert_eq!(m.kitty(0).dna, 258);
    assert_eq!(m.kitties_count(), 1);
    assert!(m.contains_kitty(0));
    assert!(!m.contains_kitty(1));
    assert_eq!(m.kitty(1).dna, 0);
}

#[test]
fn breed_sums_halves() {
    let mut m = Module::new();
    let mut a = [0u8; 16];
    a[15] = 0xff;
    let mut b = [0u8; 16];
    b[14] = 0x01;
    b[0] = 0x05;
    m.create(a).unwrap();
    m.create(b).unwrap();
    let d0 = m.kitty(0).dna;
    let d1 = m.kitty(1).dna;
    assert_eq!(m.breed(0, 1), Ok(()));
    assert_eq!(m.kitty(2).dna, d0 / 2 + d1 / 2);
    assert_eq!(m.kitties_count(), 3);
}

#[test]
fn numbered_breed_errors() {
    let mut m = Module::new();
    let mut random = [0u8; 16];
    random[0] = 2;
    m.create(random).unwrap();
    m.create(random).unwrap();
    assert_eq!(m.breed(5, 0), Err(KittyError::Cat1Missing));
    assert_eq!(m.breed(0, 5), Err(KittyError::Cat2Missing));
    // dna 2 and 2 give 1 + 1 = 2, which is not a stored number yet
    assert_eq!(m.breed(0, 1), Ok(()));
    // now numbers 0, 1, 2 exist; bred dna is again 2
    assert_eq!(m.breed(0, 1), Err(KittyError::AlreadyExists));
    assert_eq!(m.kitties_count(), 3);
    assert_eq!(KittyError::AlreadyExists.message(), "Kitty already exists");
    assert_eq!(KittyError::Cat1Missing.message(), "This cat 1 does not exist");
}
