//! Kitties stored by a sequential number, each with a 128-bit DNA number.

use vstd::prelude::*;
use std::collections::BTreeMap;
use crate::encoding::{le_value, u128_from_random};

verus! {

broadcast use vstd::std_specs::btree::group_btree_axioms, vstd::laws_cmp::group_laws_cmp;

/// A kitty: its DNA.
#[derive(Clone, Copy)]
pub struct Kitty {
    pub dna: u128,
}

/// Why a call of the module was refused.
#[derive(PartialEq, Eq, Structural, Clone, Copy, Debug)]
pub enum KittyError {
    /// No number is left for a new kitty.
    CountOverflow,
    /// The first parent does not exist.
    Cat1Missing,
    /// The second parent does not exist.
    Cat2Missing,
    /// The bred DNA, read as a kitty number, names a stored kitty.
    AlreadyExists,
}

impl KittyError {
    /// The module's message for this error.
    pub fn message(&self) -> (text: &'static str)
        ensures
            text@ == self.spec_message()@,
            *self == KittyError::CountOverflow ==> text@ == "Kitties count overflow"@,
            *self == KittyError::Cat1Missing ==> text@ == "This cat 1 does not exist"@,
            *self == KittyError::Cat2Missing ==> text@ == "This cat 2 does not exist"@,
            *self == KittyError::AlreadyExists ==> text@ == "Kitty already exists"@,
    {
        match self {
            KittyError::CountOverflow => "Kitties count overflow",
            KittyError::Cat1Missing => "This cat 1 does not exist",
            KittyError::Cat2Missing => "This cat 2 does not exist",
            KittyError::AlreadyExists => "Kitty already exists",
        }
    }

    /// The message text of each error.
    pub open spec fn spec_message(self) -> &'static str {
        match self {
            KittyError::CountOverflow => "Kitties count overflow",
            KittyError::Cat1Missing => "This cat 1 does not exist",
            KittyError::Cat2Missing => "This cat 2 does not exist",
            KittyError::AlreadyExists => "Kitty already exists",
        }
    }
}

/// The storage of the module, as maps.
pub struct NumberedKittiesView {
    /// All kitties, by number.
    pub kitties: Map<u32, Kitty>,
    /// The number of kitties, i.e. the next kitty number.
    pub kitties_count: u32,
}

/// The DNA of a kitty bred from DNAs `dna1` and `dna2`: the sum of their
/// halves (each rounded down).
pub open spec fn bred_dna(dna1: u128, dna2: u128) -> u128 {
    (dna1 / 2 + dna2 / 2) as u128
}

impl NumberedKittiesView {
    /// What the module keeps true: the kitties are exactly those numbered
    /// below the count.
    pub open spec fn wf(self) -> bool {
        forall|id: u32| #[trigger] self.kitties.contains_key(id) <==> id < self.kitties_count
    }

    /// Whether `key`, read as a kitty number, names a stored kitty.
    pub open spec fn exists_key(self, key: u128) -> bool {
        key <= u32::MAX && self.kitties.contains_key(key as u32)
    }

    /// Storage after `kitty` is appended under the next number.
    pub open spec fn append(self, kitty: Kitty) -> NumberedKittiesView {
        NumberedKittiesView {
            kitties: self.kitties.insert(self.kitties_count, kitty),
            kitties_count: (self.kitties_count + 1) as u32,
        }
    }

    /// The first check that refuses a breeding of `kitty_id_1` and
    /// `kitty_id_2`, if any.
    pub open spec fn breed_error(self, kitty_id_1: u32, kitty_id_2: u32) -> Option<KittyError> {
        if !self.kitties.contains_key(kitty_id_1) {
            Some(KittyError::Cat1Missing)
        } else if !self.kitties.contains_key(kitty_id_2) {
            Some(KittyError::Cat2Missing)
        } else if self.exists_key(bred_dna(self.kitties[kitty_id_1].dna, self.kitties[kitty_id_2].dna)) {
            Some(KittyError::AlreadyExists)
        } else if self.kitties_count == u32::MAX {
            Some(KittyError::CountOverflow)
        } else {
            None
        }
    }
}

/// The module: its storage.
pub struct Module {
    kitties: BTreeMap<u32, Kitty>,
    kitties_count: u32,
}

impl View for Module {
    type V = NumberedKittiesView;

    closed spec fn view(&self) -> NumberedKittiesView {
        NumberedKittiesView { kitties: self.kitties@, kitties_count: self.kitties_count }
    }
}

impl Module {
    /// Empty storage.
    pub fn new() -> (m: Module)
        ensures
            m@.kitties == Map::<u32, Kitty>::empty(),
            m@.kitties_count == 0,
            m@.wf(),
    {
        Module { kitties: BTreeMap::new(), kitties_count: 0 }
    }

    /// The kitty stored under `kitty_id`, or a kitty of DNA zero when there
    /// is none.
    pub fn kitty(&self, kitty_id: u32) -> (k: Kitty)
        ensures
            self@.kitties.contains_key(kitty_id) ==> k == self@.kitties[kitty_id],
            !self@.kitties.contains_key(kitty_id) ==> k.dna == 0,
    {
        match self.kitties.get(&kitty_id) {
            Some(k) => *k,
            None => Kitty { dna: 0 },
        }
    }

    /// Whether a kitty is stored under `kitty_id`.
    pub fn contains_kitty(&self, kitty_id: u32) -> (b: bool)
        ensures
            b == self@.kitties.contains_key(kitty_id),
    {
        self.kitties.contains_key(&kitty_id)
    }

    /// The number of kitties.
    pub fn kitties_count(&self) -> (n: u32)
        ensures
            n == self@.kitties_count,
    {
        self.kitties_count
    }

    /// Creates a kitty whose DNA is read, least significant byte first,
    /// from `random`: the blake2-128 hash of `random_payload` for the sender.
    pub fn create(&mut self, random: [u8; 16]) -> (r: Result<(), KittyError>)
        requires
            old(self)@.wf(),
        ensures
            final(self)@.wf(),
            old(self)@.kitties_count == u32::MAX ==> r == Err::<(), KittyError>(KittyError::CountOverflow)
                && final(self)@ == old(self)@,
            old(self)@.kitties_count < u32::MAX ==> r == Ok::<(), KittyError>(())
                && final(self)@ == old(self)@.append(Kitty { dna: le_value(random@) as u128 }),
            old(self)@.kitties_count < u32::MAX ==> {
                let c = old(self)@.kitties_count;
                &&& final(self)@.kitties.contains_key(c)
                &&& final(self)@.kitties[c].dna as nat == le_value(random@)
                &&& final(self)@.kitties_count == c + 1
            },
    {
        let count = self.kitties_count;
        let new_count = match count.checked_add(1) {
            Some(n) => n,
            None => return Err(KittyError::CountOverflow),
        };
        let final_dna = u128_from_random(&random);
        let kitty = Kitty { dna: final_dna };
        self.kitties.insert(count, kitty);
        self.kitties_count = new_count;
        assert(self@.kitties =~= old(self)@.kitties.insert(count, kitty));
        Ok(())
    }

    /// Breeds a kitty from `kitty_id_1` and `kitty_id_2`, whose DNA is the
    /// sum of the halves of the parents' DNAs.
    pub fn breed(&mut self, kitty_id_1: u32, kitty_id_2: u32) -> (r: Result<(), KittyError>)
        requires
            old(self)@.wf(),
        ensures
            final(self)@.wf(),
            old(self)@.breed_error(kitty_id_1, kitty_id_2) matches Some(e) ==> r == Err::<(), KittyError>(e)
                && final(self)@ == old(self)@,
            old(self)@.breed_error(kitty_id_1, kitty_id_2) is None ==> r == Ok::<(), KittyError>(())
                && final(self)@ == old(self)@.append(Kitty {
                    dna: bred_dna(old(self)@.kitties[kitty_id_1].dna, old(self)@.kitties[kitty_id_2].dna),
                }),
            old(self)@.breed_error(kitty_id_1, kitty_id_2) is None ==> {
                let c = old(self)@.kitties_count;
                &&& final(self)@.kitties.contains_key(c)
                &&& final(self)@.kitties[c].dna as int
                    == old(self)@.kitties[kitty_id_1].dna as int / 2 + old(self)@.kitties[kitty_id_2].dna as int / 2
                &&& final(self)@.kitties_count == c + 1
            },
            old(self)@.breed_error(kitty_id_1, kitty_id_2) == Some(KittyError::AlreadyExists) ==> {
                let dna = old(self)@.kitties[kitty_id_1].dna as int / 2 + old(self)@.kitties[kitty_id_2].dna as int / 2;
                dna <= u32::MAX && old(self)@.kitties.contains_key(dna as u32)
            },
    {
        if !self.contains_kitty(kitty_id_1) {
            return Err(KittyError::Cat1Missing);
        }
        if !self.contains_kitty(kitty_id_2) {
            return Err(KittyError::Cat2Missing);
        }
        let kitty_1 = self.kitty(kitty_id_1);
        let kitty_2 = self.kitty(kitty_id_2);
        let final_dna = kitty_1.dna / 2 + kitty_2.dna / 2;
        if final_dna <= u32::MAX as u128 && self.contains_kitty(final_dna as u32) {
            return Err(KittyError::AlreadyExists);
        }
        let count = self.kitties_count;
        let new_count = match count.checked_add(1) {
            Some(n) => n,
            None => return Err(KittyError::CountOverflow),
        };
        let kitty = Kitty { dna: final_dna };
        self.kitties.insert(count, kitty);
        self.kitties_count = new_count;
        Ok(())
    }
}

/// The bred DNA is the sum of the halves of the parents' DNAs, computed
/// without wrapping (it never exceeds the largest DNA).
pub proof fn lemma_bred_dna_sums_halves(dna1: u128, dna2: u128)
    ensures
        bred_dna(dna1, dna2) as int == dna1 as int / 2 + dna2 as int / 2,
{
}

/// Appending a kitty stores it under the next number and counts it; every
/// stored kitty stays as it was.
pub proof fn lemma_append_keeps_kitties(v: NumberedKittiesView, kitty: Kitty, id: u32)
    requires
        v.wf(),
        v.kitties_count < u32::MAX,
    ensures
        v.append(kitty).kitties.contains_key(v.kitties_count),
        v.append(kitty).kitties[v.kitties_count] == kitty,
        v.append(kitty).kitties_count == v.kitties_count + 1,
        v.kitties.contains_key(id) ==> v.append(kitty).kitties[id] == v.kitties[id],
{
}

} // verus!
