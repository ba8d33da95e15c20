//! Gundams identified by a sequential number, whose DNA carries a star level
//! and a fighting type.

use vstd::prelude::*;
use std::collections::BTreeMap;
use crate::AccountId;

verus! {

broadcast use vstd::std_specs::btree::group_btree_axioms, vstd::laws_cmp::group_laws_cmp;

/// Number of a gundam: gundams are numbered from zero in order of creation.
pub type GundamNumber = u32;

/// A gundam: its 128-bit DNA as sixteen bytes. Byte 0 is the star level
/// (1 to 5), byte 1 the type (1: Sword, 2: Sniper, 3: Speed).
#[derive(Clone, Copy)]
pub struct Gundam(pub [u8; 16]);

/// Why a call of the module was refused.
#[derive(PartialEq, Eq, Structural, Clone, Copy, Debug)]
pub enum GundamError {
    /// No number is left for a new gundam.
    CountOverflow,
    /// The first parent does not exist.
    InvalidGundam1,
    /// The second parent does not exist.
    InvalidGundam2,
}

impl GundamError {
    /// The module's message for this error.
    pub fn message(&self) -> (text: &'static str)
        ensures
            text@ == self.spec_message()@,
            *self == GundamError::CountOverflow ==> text@ == "count overflow"@,
            *self == GundamError::InvalidGundam1 ==> text@ == "Invalid gundam1"@,
            *self == GundamError::InvalidGundam2 ==> text@ == "Invalid gundam2"@,
    {
        match self {
            GundamError::CountOverflow => "count overflow",
            GundamError::InvalidGundam1 => "Invalid gundam1",
            GundamError::InvalidGundam2 => "Invalid gundam2",
        }
    }

    /// The message text of each error.
    pub open spec fn spec_message(self) -> &'static str {
        match self {
            GundamError::CountOverflow => "count overflow",
            GundamError::InvalidGundam1 => "Invalid gundam1",
            GundamError::InvalidGundam2 => "Invalid gundam2",
        }
    }
}

/// The DNA that `gen_dna` draws from the random bytes `rng`: the first
/// sixteen bytes of `rng`, with the star level `rng[0] % 5 + 1` and the
/// type `rng[1] % 3 + 1`.
pub open spec fn spec_gen_dna(rng: Seq<u8>) -> Seq<u8> {
    rng.take(16).update(0, (rng[0] % 5 + 1) as u8).update(1, (rng[1] % 3 + 1) as u8)
}

/// The DNA that `combine_dna` breeds from `dna1` and `dna2` with random
/// bytes `rng`: the first sixteen bytes of `rng`, with the parents' mean
/// star level (rounded down), and the parents' type where they share it,
/// else the type `rng[1] % 3 + 1`.
pub open spec fn spec_combine_dna(dna1: Seq<u8>, dna2: Seq<u8>, rng: Seq<u8>) -> Seq<u8> {
    rng.take(16).update(0, ((dna1[0] + dna2[0]) / 2) as u8).update(
        1,
        if dna1[1] == dna2[1] {
            dna1[1]
        } else {
            (rng[1] % 3 + 1) as u8
        },
    )
}

/// Star level and type lie in their documented ranges.
pub open spec fn traits_in_range(dna: Seq<u8>) -> bool {
    &&& 1 <= dna[0] <= 5
    &&& 1 <= dna[1] <= 3
}

/// The storage of the module, as maps.
pub struct GundamsView {
    /// All gundams, by number.
    pub gundams: Map<GundamNumber, Gundam>,
    /// The number of gundams, i.e. the next gundam number.
    pub gundams_count: GundamNumber,
    /// The gundam number an account holds in one of its slots (absent means zero).
    pub owned_gundams: Map<(AccountId, GundamNumber), GundamNumber>,
    /// The number of slots of an account (absent means zero).
    pub owned_gundam_count: Map<AccountId, GundamNumber>,
}

impl GundamsView {
    /// The number of slots of `owner`.
    pub open spec fn owned_count_of(self, owner: AccountId) -> GundamNumber {
        if self.owned_gundam_count.contains_key(owner) {
            self.owned_gundam_count[owner]
        } else {
            0
        }
    }

    /// What the module keeps true: the gundams are exactly those numbered
    /// below the count, each has a star level in 1..=5 and a type in 1..=3,
    /// no account has more slots than there are gundams, and every stored
    /// slot lies below its account's slot count and names a stored gundam.
    pub open spec fn wf(self) -> bool {
        &&& forall|id: GundamNumber| #[trigger] self.gundams.contains_key(id) <==> id < self.gundams_count
        &&& forall|id: GundamNumber| #[trigger] self.gundams.contains_key(id) ==> traits_in_range(self.gundams[id].0@)
        &&& forall|a: AccountId| #[trigger] self.owned_gundam_count.contains_key(a) ==> self.owned_gundam_count[a] <= self.gundams_count
        &&& forall|a: AccountId, i: GundamNumber| #[trigger] self.owned_gundams.contains_key((a, i))
            ==> i < self.owned_count_of(a) && self.gundams.contains_key(self.owned_gundams[(a, i)])
    }

    /// Storage after `gundam` is stored under `gundam_id` and `owner` gets a
    /// new slot holding `gundam_id`.
    pub open spec fn save(self, owner: AccountId, gundam_id: GundamNumber, gundam: Gundam) -> GundamsView {
        let slot = self.owned_count_of(owner);
        GundamsView {
            gundams: self.gundams.insert(gundam_id, gundam),
            gundams_count: (gundam_id + 1) as GundamNumber,
            owned_gundams: self.owned_gundams.insert((owner, slot), gundam_id),
            owned_gundam_count: self.owned_gundam_count.insert(owner, (slot + 1) as GundamNumber),
        }
    }

    /// The first check that refuses a breeding of `gundam_id_1` and
    /// `gundam_id_2`, if any.
    pub open spec fn breed_error(self, gundam_id_1: GundamNumber, gundam_id_2: GundamNumber) -> Option<GundamError> {
        if !self.gundams.contains_key(gundam_id_1) {
            Some(GundamError::InvalidGundam1)
        } else if !self.gundams.contains_key(gundam_id_2) {
            Some(GundamError::InvalidGundam2)
        } else if self.gundams_count == GundamNumber::MAX {
            Some(GundamError::CountOverflow)
        } else {
            None
        }
    }
}

/// The gundam module: its storage.
pub struct Module {
    gundams: BTreeMap<GundamNumber, Gundam>,
    gundams_count: GundamNumber,
    owned_gundams: BTreeMap<(AccountId, GundamNumber), GundamNumber>,
    owned_gundam_count: BTreeMap<AccountId, GundamNumber>,
}

impl View for Module {
    type V = GundamsView;

    closed spec fn view(&self) -> GundamsView {
        GundamsView {
            gundams: self.gundams@,
            gundams_count: self.gundams_count,
            owned_gundams: self.owned_gundams@,
            owned_gundam_count: self.owned_gundam_count@,
        }
    }
}

impl Module {
    /// Empty storage.
    pub fn new() -> (m: Module)
        ensures
            m@.gundams == Map::<GundamNumber, Gundam>::empty(),
            m@.gundams_count == 0,
            m@.owned_gundams == Map::<(AccountId, GundamNumber), GundamNumber>::empty(),
            m@.owned_gundam_count == Map::<AccountId, GundamNumber>::empty(),
            m@.wf(),
    {
        Module {
            gundams: BTreeMap::new(),
            gundams_count: 0,
            owned_gundams: BTreeMap::new(),
            owned_gundam_count: BTreeMap::new(),
        }
    }

    /// The gundam stored under `gundam_id`, if any.
    pub fn gundam(&self, gundam_id: GundamNumber) -> (g: Option<Gundam>)
        ensures
            g == (if self@.gundams.contains_key(gundam_id) { Some(self@.gundams[gundam_id]) } else { None }),
    {
        match self.gundams.get(&gundam_id) {
            Some(g) => Some(*g),
            None => None,
        }
    }

    /// The number of gundams.
    pub fn gundams_count(&self) -> (n: GundamNumber)
        ensures
            n == self@.gundams_count,
    {
        self.gundams_count
    }

    /// The gundam number in `owner`'s slot `index` (zero when absent).
    pub fn owned_gundam(&self, owner: AccountId, index: GundamNumber) -> (n: GundamNumber)
        ensures
            n == (if self@.owned_gundams.contains_key((owner, index)) { self@.owned_gundams[(owner, index)] } else { 0 }),
    {
        match self.owned_gundams.get(&(owner, index)) {
            Some(n) => *n,
            None => 0,
        }
    }

    /// The number of slots of `owner`.
    pub fn owned_gundam_count(&self, owner: AccountId) -> (n: GundamNumber)
        ensures
            n == self@.owned_count_of(owner),
    {
        match self.owned_gundam_count.get(&owner) {
            Some(n) => *n,
            None => 0,
        }
    }

    /// The number for the next gundam, unless every number is taken.
    pub fn next_id(&self) -> (r: Result<GundamNumber, GundamError>)
        ensures
            self@.gundams_count == GundamNumber::MAX ==> r == Err::<GundamNumber, GundamError>(GundamError::CountOverflow),
            self@.gundams_count < GundamNumber::MAX ==> r == Ok::<GundamNumber, GundamError>(self@.gundams_count),
    {
        let new_gundam_index = self.gundams_count;
        if new_gundam_index == GundamNumber::MAX {
            return Err(GundamError::CountOverflow);
        }
        Ok(new_gundam_index)
    }

    /// Draws a DNA from the random bytes `rng`.
    pub fn gen_dna(rng: &[u8]) -> (dna: [u8; 16])
        requires
            rng@.len() >= 16,
        ensures
            dna@ == spec_gen_dna(rng@),
            traits_in_range(dna@),
            dna[0] == rng@[0] % 5 + 1,
            dna[1] == rng@[1] % 3 + 1,
            forall|i: int| 2 <= i < 16 ==> dna[i] == rng@[i],
    {
        let mut dna: [u8; 16] = [0u8; 16];
        let mut i: usize = 0;
        while i < 16
            invariant
                i <= 16,
                rng@.len() >= 16,
                forall|j: int| 0 <= j < i ==> dna[j] == rng@[j],
            decreases 16 - i,
        {
            dna[i] = rng[i];
            i = i + 1;
        }
        dna[0] = rng[0] % 5 + 1;
        dna[1] = rng[1] % 3 + 1;
        assert(dna@ =~= spec_gen_dna(rng@));
        dna
    }

    /// Breeds a DNA from parents `dna1` and `dna2` with random bytes `rng`.
    /// The parents' star levels must not sum above 255.
    pub fn combine_dna(dna1: &[u8], dna2: &[u8], rng: &[u8]) -> (dna: [u8; 16])
        requires
            dna1@.len() >= 2,
            dna2@.len() >= 2,
            rng@.len() >= 16,
            dna1@[0] + dna2@[0] <= 255,
        ensures
            dna@ == spec_combine_dna(dna1@, dna2@, rng@),
            traits_in_range(dna1@) && traits_in_range(dna2@) ==> traits_in_range(dna@),
            dna[0] == (dna1@[0] + dna2@[0]) / 2,
            dna1@[1] == dna2@[1] ==> dna[1] == dna1@[1],
            dna1@[1] != dna2@[1] ==> dna[1] == rng@[1] % 3 + 1,
            forall|i: int| 2 <= i < 16 ==> dna[i] == rng@[i],
    {
        let mut dna: [u8; 16] = [0u8; 16];
        let mut i: usize = 0;
        while i < 16
            invariant
                i <= 16,
                rng@.len() >= 16,
                forall|j: int| 0 <= j < i ==> dna[j] == rng@[j],
            decreases 16 - i,
        {
            dna[i] = rng[i];
            i = i + 1;
        }
        dna[0] = (dna1[0] + dna2[0]) / 2;
        if dna1[1] == dna2[1] {
            dna[1] = dna1[1];
        } else {
            dna[1] = rng[1] % 3 + 1;
        }
        assert(dna@ =~= spec_combine_dna(dna1@, dna2@, rng@));
        dna
    }

    /// Stores `gundam` under `gundam_id`, makes the count the number after
    /// it, and gives `owner` a new slot holding `gundam_id`.
    pub fn check_and_save(&mut self, owner: AccountId, gundam_id: GundamNumber, gundam: Gundam)
        requires
            gundam_id < GundamNumber::MAX,
            old(self)@.owned_count_of(owner) < GundamNumber::MAX,
        ensures
            final(self)@ == old(self)@.save(owner, gundam_id, gundam),
            final(self)@.gundams.contains_key(gundam_id),
            final(self)@.gundams[gundam_id] == gundam,
            final(self)@.gundams_count == gundam_id + 1,
            final(self)@.owned_gundams[(owner, old(self)@.owned_count_of(owner))] == gundam_id,
            final(self)@.owned_count_of(owner) == old(self)@.owned_count_of(owner) + 1,
            forall|a: AccountId| a != owner ==> #[trigger] final(self)@.owned_count_of(a) == old(self)@.owned_count_of(a),
    {
        self.gundams.insert(gundam_id, gundam);
        self.gundams_count = gundam_id + 1;
        let user_gundams_id = self.owned_gundam_count(owner);
        self.owned_gundams.insert((owner, user_gundams_id), gundam_id);
        self.owned_gundam_count.insert(owner, user_gundams_id + 1);
    }

    /// Creates a gundam for `owner` from `rng`: the blake2-128 hash of
    /// `random_payload` for the owner.
    pub fn do_create(&mut self, owner: AccountId, rng: [u8; 16]) -> (r: Result<(), GundamError>)
        requires
            old(self)@.wf(),
        ensures
            final(self)@.wf(),
            old(self)@.gundams_count == GundamNumber::MAX ==> r == Err::<(), GundamError>(GundamError::CountOverflow)
                && final(self)@ == old(self)@,
            old(self)@.gundams_count < GundamNumber::MAX ==> {
                let c = old(self)@.gundams_count;
                let slot = old(self)@.owned_count_of(owner);
                let dna = final(self)@.gundams[c].0;
                &&& r == Ok::<(), GundamError>(())
                &&& final(self)@ == old(self)@.save(owner, c, final(self)@.gundams[c])
                &&& final(self)@.gundams[c].0@ == spec_gen_dna(rng@)
                &&& final(self)@.gundams.contains_key(c)
                &&& final(self)@.gundams_count == c + 1
                &&& dna[0] == rng[0] % 5 + 1
                &&& dna[1] == rng[1] % 3 + 1
                &&& forall|i: int| 2 <= i < 16 ==> dna[i] == rng[i]
                &&& final(self)@.owned_gundams[(owner, slot)] == c
                &&& final(self)@.owned_count_of(owner) == slot + 1
            },
    {
        let new_gundam_index = match self.next_id() {
            Ok(id) => id,
            Err(e) => return Err(e),
        };
        let dna = Self::gen_dna(rng.as_slice());
        let gundam = Gundam(dna);
        proof {
            if old(self)@.owned_gundam_count.contains_key(owner) {
                assert(old(self)@.owned_gundam_count[owner] <= old(self)@.gundams_count);
            }
        }
        self.check_and_save(owner, new_gundam_index, gundam);
        Ok(())
    }

    /// Breeds a gundam for `owner` from `gundam_id_1` and `gundam_id_2` with
    /// `rng`: the blake2-128 hash of `random_payload` for the owner.
    pub fn do_breed(&mut self, owner: AccountId, gundam_id_1: GundamNumber, gundam_id_2: GundamNumber, rng: [u8; 16]) -> (r: Result<(), GundamError>)
        requires
            old(self)@.wf(),
        ensures
            final(self)@.wf(),
            old(self)@.breed_error(gundam_id_1, gundam_id_2) matches Some(e) ==> r == Err::<(), GundamError>(e)
                && final(self)@ == old(self)@,
            old(self)@.breed_error(gundam_id_1, gundam_id_2) is None ==> {
                let c = old(self)@.gundams_count;
                let slot = old(self)@.owned_count_of(owner);
                let dna = final(self)@.gundams[c].0;
                let dna1 = old(self)@.gundams[gundam_id_1].0;
                let dna2 = old(self)@.gundams[gundam_id_2].0;
                &&& r == Ok::<(), GundamError>(())
                &&& final(self)@ == old(self)@.save(owner, c, final(self)@.gundams[c])
                &&& final(self)@.gundams[c].0@ == spec_combine_dna(dna1@, dna2@, rng@)
                &&& final(self)@.gundams.contains_key(c)
                &&& final(self)@.gundams_count == c + 1
                &&& dna[0] == (dna1[0] + dna2[0]) / 2
                &&& dna1[1] == dna2[1] ==> dna[1] == dna1[1]
                &&& dna1[1] != dna2[1] ==> dna[1] == rng[1] % 3 + 1
                &&& forall|i: int| 2 <= i < 16 ==> dna[i] == rng[i]
                &&& final(self)@.owned_gundams[(owner, slot)] == c
                &&& final(self)@.owned_count_of(owner) == slot + 1
            },
    {
        let gundam1 = self.gundam(gundam_id_1);
        let gundam2 = self.gundam(gundam_id_2);
        if gundam1.is_none() {
            return Err(GundamError::InvalidGundam1);
        }
        if gundam2.is_none() {
            return Err(GundamError::InvalidGundam2);
        }
        let dna1 = gundam1.unwrap().0;
        let dna2 = gundam2.unwrap().0;
        proof {
            assert(traits_in_range(dna1@));
            assert(traits_in_range(dna2@));
        }
        let dna = Self::combine_dna(dna1.as_slice(), dna2.as_slice(), rng.as_slice());
        let gundam_new = Gundam(dna);
        let new_index = match self.next_id() {
            Ok(id) => id,
            Err(e) => return Err(e),
        };
        proof {
            if old(self)@.owned_gundam_count.contains_key(owner) {
                assert(old(self)@.owned_gundam_count[owner] <= old(self)@.gundams_count);
            }
        }
        self.check_and_save(owner, new_index, gundam_new);
        Ok(())
    }
}

/// Every slot of an account names a stored gundam.
pub proof fn lemma_slots_name_stored_gundams(v: GundamsView, owner: AccountId, index: GundamNumber)
    requires
        v.wf(),
        v.owned_gundams.contains_key((owner, index)),
    ensures
        v.gundams.contains_key(v.owned_gundams[(owner, index)]),
        v.owned_gundams[(owner, index)] < v.gundams_count,
        index < v.owned_count_of(owner),
{
}

/// Every gundam in a well-formed storage has a star level from 1 to 5 and a
/// type from 1 to 3.
pub proof fn lemma_stored_gundams_in_range(v: GundamsView, id: GundamNumber)
    requires
        v.wf(),
        v.gundams.contains_key(id),
    ensures
        1 <= v.gundams[id].0[0] <= 5,
        1 <= v.gundams[id].0[1] <= 3,
{
}

/// A drawn DNA has the star level `rng[0] % 5 + 1`, the type
/// `rng[1] % 3 + 1`, and the random bytes elsewhere.
pub proof fn lemma_gen_dna_draws_traits(rng: Seq<u8>)
    requires
        rng.len() >= 16,
    ensures
        spec_gen_dna(rng).len() == 16,
        spec_gen_dna(rng)[0] == rng[0] % 5 + 1,
        spec_gen_dna(rng)[1] == rng[1] % 3 + 1,
        forall|i: int| 2 <= i < 16 ==> #[trigger] spec_gen_dna(rng)[i] == rng[i],
        traits_in_range(spec_gen_dna(rng)),
{
}

/// A bred DNA has the parents' mean star level, the parents' type when they
/// share it and else the type `rng[1] % 3 + 1`, and the random bytes
/// elsewhere; parents with traits in range give a child with traits in range.
pub proof fn lemma_combine_dna_breeds(dna1: Seq<u8>, dna2: Seq<u8>, rng: Seq<u8>)
    requires
        dna1.len() >= 2,
        dna2.len() >= 2,
        rng.len() >= 16,
        dna1[0] + dna2[0] <= 255,
    ensures
        spec_combine_dna(dna1, dna2, rng).len() == 16,
        spec_combine_dna(dna1, dna2, rng)[0] == (dna1[0] + dna2[0]) / 2,
        dna1[1] == dna2[1] ==> spec_combine_dna(dna1, dna2, rng)[1] == dna1[1],
        dna1[1] != dna2[1] ==> spec_combine_dna(dna1, dna2, rng)[1] == rng[1] % 3 + 1,
        forall|i: int| 2 <= i < 16 ==> #[trigger] spec_combine_dna(dna1, dna2, rng)[i] == rng[i],
        traits_in_range(dna1) && traits_in_range(dna2) ==> traits_in_range(spec_combine_dna(dna1, dna2, rng)),
{
}

/// Saving a gundam stores it, makes the count the number after it, and
/// gives the owner one more slot, which holds the gundam's number; other
/// accounts keep their slots.
pub proof fn lemma_save_records_gundam(v: GundamsView, owner: AccountId, gundam_id: GundamNumber, gundam: Gundam)
    requires
        gundam_id < GundamNumber::MAX,
        v.owned_count_of(owner) < GundamNumber::MAX,
    ensures
        ({
            let w = v.save(owner, gundam_id, gundam);
            let slot = v.owned_count_of(owner);
            &&& w.gundams.contains_key(gundam_id)
            &&& w.gundams[gundam_id] == gundam
            &&& w.gundams_count == gundam_id + 1
            &&& w.owned_gundams.contains_key((owner, slot))
            &&& w.owned_gundams[(owner, slot)] == gundam_id
            &&& w.owned_count_of(owner) == slot + 1
            &&& forall|a: AccountId, i: GundamNumber| (a, i) != (owner, slot) ==>
                #[trigger] w.owned_gundams.contains_key((a, i)) == v.owned_gundams.contains_key((a, i))
            &&& forall|a: AccountId| a != owner ==> #[trigger] w.owned_count_of(a) == v.owned_count_of(a)
            &&& forall|id: GundamNumber| id != gundam_id && #[trigger] v.gundams.contains_key(id)
                ==> w.gundams.contains_key(id) && w.gundams[id] == v.gundams[id]
        }),
{
}

} // verus!
