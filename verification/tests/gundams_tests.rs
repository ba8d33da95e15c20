use kitties::gundams::{Gundam, GundamError, Module};

#[test]
fn gen_dna_sets_stars_and_type() {
    let rng: Vec<u8> = (0u8..16).map(|i| i * 10 + 7).collect();
    let dna = Module::gen_dna(&rng);
    assert_eq!(dna[0], 7 % 5 + 1);
    assert_eq!(dna[1], 17 % 3 + 1);
    for i in 2..16 {
        assert_eq!(dna[i], rng[i]);
    }
    let dna = Module::gen_dna(&[255u8; 20]);
    assert_eq!(dna[0], 1);
    assert_eq!(dna[1], 1);
    assert_eq!(dna[15], 255);
}

#[test]
fn combine_dna_averages_stars_and_keeps_shared_type() {
    let rng = [200u8; 16];
    let dna = Module::combine_dna(&[5, 2, 0], &[2, 2], &rng);
    assert_eq!(dna[0], 3);
    assert_eq!(dna[1], 2);
    assert_eq!(dna[2], 200);
    let dna = Module::combine_dna(&[1, 1], &[1, 3], &rng);
    assert_eq!(dna[0], 1);
    assert_eq!(dna[1], 200 % 3 + 1);
}

#[test]
fn create_and_breed() {
    let mut m = Module::new();
    assert_eq!(m.next_id(), Ok(0));
    assert_eq!(m.do_create(1, [4u8; 16]), Ok(()));
    assert_eq!(m.do_create(1, [9u8; 16]), Ok(()));
    assert_eq!(m.gundams_count(), 2);
    assert_eq!(m.gundam(0).unwrap().0[0], 5);
    assert_eq!(m.gundam(0).unwrap().0[1], 2);
    assert_eq!(m.gundam(1).unwrap().0[0], 5);
    assert_eq!(m.gundam(1).unwrap().0[1], 1);
    assert_eq!(m.owned_gundam_count(1), 2);
    assert_eq!(m.owned_gundam(1, 0), 0);
    assert_eq!(m.owned_gundam(1, 1), 1);
    assert_eq!(m.owned_gundam(2, 0), 0);
    assert_eq!(m.do_breed(2, 0, 1, [0u8; 16]), Ok(()));
    let child = m.gundam(2).unwrap();
    assert_eq!(child.0[0], 5);
    assert_eq!(child.0[1], 1);
    assert_eq!(m.owned_gundam_count(2), 1);
    assert_eq!(m.owned_gundam(2, 0), 2);
    assert_eq!(m.gundams_count(), 3);
}

#[test]
fn stored_gundams_keep_traits_in_range() {
    let mut m = Module::new();
    for r in 0u8..30 {
        m.do_create(r as u64, [r.wrapping_mul(37); 16]).unwrap();
    }
    for i in 0..29u32 {
        m.do_breed(99, i, i + 1, [i as u8; 16]).unwrap();
    }
    for i in 0..m.gundams_count() {
        let g = m.gundam(i).unwrap();
        assert!((1..=5).contains(&g.0[0]));
        assert!((1..=3).contains(&g.0[1]));
    }
}

#[test]
fn gundam_breed_errors() {
    let mut m = Module::new();
    m.do_create(1, [0u8; 16]).unwrap();
    assert_eq!(m.do_breed(1, 3, 0, [0u8; 16]), Err(GundamError::InvalidGundam1));
    assert_eq!(m.do_breed(1, 0, 3, [0u8; 16]), Err(GundamError::InvalidGundam2));
    assert_eq!(m.do_breed(1, 0, 0, [0u8; 16]), Ok(()));
    assert_eq!(GundamError::InvalidGundam1.message(), "Invalid gundam1");
    assert_eq!(GundamError::CountOverflow.message(), "count overflow");
}

#[test]
fn check_and_save_records_gundam_number() {
    let mut m = Module::new();
    m.check_and_save(4, 0, Gundam([1u8; 16]));
    m.check_and_save(5, 1, Gundam([1u8; 16]));
    m.check_and_save(4, 2, Gundam([1u8; 16]));
    assert_eq!(m.owned_gundam(4, 0), 0);
    assert_eq!(m.owned_gundam(4, 1), 2);
    assert_eq!(m.owned_gundam(5, 0), 1);
    assert_eq!(m.owned_gundam_count(4), 2);
    assert_eq!(m.gundams_count(), 3);
}
