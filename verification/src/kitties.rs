//! Kitties identified by a sequential index, with per-owner slots.

use vstd::prelude::*;

verus! {

/// Mixes two parent DNA bytes bit by bit: where `selector` has a one the bit
/// comes from `dna1`, elsewhere from `dna2`.
pub fn combine_dna(dna1: u8, dna2: u8, selector: u8) -> (new_dna: u8)
    ensures
        new_dna == (dna1 & selector) | (dna2 & !selector),
{
    let mut new_dna: u8 = 0;
    let mut bit_mask: u8 = 0x01;
    let mut i: u8 = 0;
    proof {
        let d1 = dna1;
        let d2 = dna2;
        let sel = selector;
        assert(1u8 == (1u8 << 0u8)) by (bit_vector);
        assert(0u8 == ((d1 & sel) | (d2 & !sel)) & (((1u16 << 0u8) - 1u16) as u8)) by (bit_vector);
    }
    while i < 8
        invariant
            i <= 8,
            i < 8 ==> bit_mask == (1u8 << i),
            new_dna == ((dna1 & selector) | (dna2 & !selector)) & (((1u16 << i) - 1u16) as u8),
        decreases 8 - i,
    {
        if (bit_mask & selector) != 0 {
            new_dna |= dna1 & bit_mask;
        } else {
            new_dna |= dna2 & bit_mask;
        }
        proof {
            let nd = new_dna;
            assert(nd == ((dna1 & selector) | (dna2 & !selector)) & (((1u16 << ((i + 1) as u8)) - 1u16) as u8)) by (bit_vector)
                requires
                    i < 8,
                    bit_mask == (1u8 << i),
                    (bit_mask & selector) != 0 ==> nd == (((dna1 & selector) | (dna2 & !selector)) & (((1u16 << i) - 1u16) as u8)) | (dna1 & bit_mask),
                    (bit_mask & selector) == 0 ==> nd == (((dna1 & selector) | (dna2 & !selector)) & (((1u16 << i) - 1u16) as u8)) | (dna2 & bit_mask);
        }
        bit_mask = bit_mask << 1;
        i = i + 1;
        proof {
            let bm = bit_mask;
            let ii = i;
            assert(ii < 8 ==> bm == (1u8 << ii)) by (bit_vector)
                requires
                    1 <= ii <= 8,
                    bm == ((1u8 << ((ii - 1) as u8)) << 1u8);
        }
    }
    proof {
        let nd = new_dna;
        assert(nd == (dna1 & selector) | (dna2 & !selector)) by (bit_vector)
            requires
                nd == ((dna1 & selector) | (dna2 & !selector)) & (((1u16 << 8u8) - 1u16) as u8);
    }
    new_dna
}

} // verus!

use std::collections::BTreeMap;
use crate::AccountId;

verus! {

broadcast use vstd::std_specs::btree::group_btree_axioms, vstd::laws_cmp::group_laws_cmp;

/// Index of a kitty: kitties are numbered from zero in order of creation.
pub type KittyIndex = u32;

/// A kitty: its 128-bit DNA as sixteen bytes.
#[derive(Clone, Copy)]
pub struct Kitty(pub [u8; 16]);

/// Why a call of the module was refused.
#[derive(PartialEq, Eq, Structural, Clone, Copy, Debug)]
pub enum KittyError {
    /// No index is left for a new kitty.
    CountOverflow,
    /// The first parent does not exist.
    InvalidKittyId1,
    /// The second parent does not exist.
    InvalidKittyId2,
    /// Both parents are the same kitty.
    SameParent,
    /// The sender holds no kitty in the given slot.
    NotOwned,
    /// The receiver has no slot left.
    ReceiverCountOverflow,
}

impl KittyError {
    /// The module's message for this error.
    pub fn message(&self) -> (text: &'static str)
        ensures
            text@ == self.spec_message()@,
            *self == KittyError::CountOverflow ==> text@ == "Kitties count overflow"@,
            *self == KittyError::InvalidKittyId1 ==> text@ == "Invalid kitty_id_1"@,
            *self == KittyError::InvalidKittyId2 ==> text@ == "Invalid kitty_id_2"@,
            *self == KittyError::SameParent ==> text@ == "Needs different parent"@,
            *self == KittyError::NotOwned ==> text@ == "Account dosen't own the kitty!"@,
            *self == KittyError::ReceiverCountOverflow ==> text@ == "Account kitties count overflow"@,
    {
        match self {
            KittyError::CountOverflow => "Kitties count overflow",
            KittyError::InvalidKittyId1 => "Invalid kitty_id_1",
            KittyError::InvalidKittyId2 => "Invalid kitty_id_2",
            KittyError::SameParent => "Needs different parent",
            KittyError::NotOwned => "Account dosen't own the kitty!",
            KittyError::ReceiverCountOverflow => "Account kitties count overflow",
        }
    }

    /// The message text of each error.
    pub open spec fn spec_message(self) -> &'static str {
        match self {
            KittyError::CountOverflow => "Kitties count overflow",
            KittyError::InvalidKittyId1 => "Invalid kitty_id_1",
            KittyError::InvalidKittyId2 => "Invalid kitty_id_2",
            KittyError::SameParent => "Needs different parent",
            KittyError::NotOwned => "Account dosen't own the kitty!",
            KittyError::ReceiverCountOverflow => "Account kitties count overflow",
        }
    }
}

/// The storage of the module, as maps.
pub struct KittiesView {
    /// All kitties, by index.
    pub kitties: Map<KittyIndex, Kitty>,
    /// The number of kitties, i.e. the next kitty index.
    pub kitties_count: KittyIndex,
    /// The kitty index held by an account in a slot of its own.
    pub owned_kitties: Map<(AccountId, KittyIndex), KittyIndex>,
    /// The number of slots of an account (absent means zero).
    pub owned_kitties_count: Map<AccountId, KittyIndex>,
}

/// The DNA bytes of a kitty bred from parents `dna1`, `dna2` with `selector`.
pub open spec fn mixed_dna(dna1: [u8; 16], dna2: [u8; 16], selector: [u8; 16]) -> Seq<u8> {
    Seq::new(16, |i: int| (dna1[i] & selector[i]) | (dna2[i] & !selector[i]))
}

impl KittiesView {
    /// The number of slots of `owner`.
    pub open spec fn owned_count_of(self, owner: AccountId) -> KittyIndex {
        if self.owned_kitties_count.contains_key(owner) {
            self.owned_kitties_count[owner]
        } else {
            0
        }
    }

    /// What the module keeps true: the kitties are exactly those numbered
    /// below the count, every slot lies below its account's slot count, and
    /// every slot names an existing kitty.
    pub open spec fn wf(self) -> bool {
        &&& forall|id: KittyIndex| #[trigger] self.kitties.contains_key(id) <==> id < self.kitties_count
        &&& forall|a: AccountId, i: KittyIndex| #[trigger]
            self.owned_kitties.contains_key((a, i)) ==> i < self.owned_count_of(a)
                && self.kitties.contains_key(self.owned_kitties[(a, i)])
    }

    /// Storage after a new kitty is stored under `kitty_id` and given to
    /// `owner` in its next slot.
    pub open spec fn insert_kitty(self, owner: AccountId, kitty_id: KittyIndex, kitty: Kitty) -> KittiesView {
        let slot = self.owned_count_of(owner);
        KittiesView {
            kitties: self.kitties.insert(kitty_id, kitty),
            kitties_count: (kitty_id + 1) as KittyIndex,
            owned_kitties: self.owned_kitties.insert((owner, slot), kitty_id),
            owned_kitties_count: self.owned_kitties_count.insert(owner, (slot + 1) as KittyIndex),
        }
    }

    /// Storage after `owner`'s slot `own_kitty_id` is emptied: when its last
    /// slot holds a kitty, both slots are cleared, the last slot's kitty moves
    /// into the emptied slot if that lies below the last, and the slot count,
    /// the account's number of kitties, shrinks by one. When the last slot is
    /// empty nothing changes.
    pub open spec fn remove_own(self, owner: AccountId, own_kitty_id: KittyIndex) -> KittiesView {
        let last = (self.owned_count_of(owner) - 1) as KittyIndex;
        if self.owned_kitties.contains_key((owner, last)) {
            let final_kitty_id = self.owned_kitties[(owner, last)];
            let cleared = self.owned_kitties.remove((owner, own_kitty_id)).remove((owner, last));
            KittiesView {
                owned_kitties: if last > own_kitty_id {
                    cleared.insert((owner, own_kitty_id), final_kitty_id)
                } else {
                    cleared
                },
                owned_kitties_count: self.owned_kitties_count.insert(owner, last),
                ..self
            }
        } else {
            self
        }
    }

    /// Storage after `owner`'s slot `own_kitty_id` is set to `kitty_id` and
    /// its slot count to the slot after it.
    pub open spec fn insert_own(self, owner: AccountId, own_kitty_id: KittyIndex, kitty_id: KittyIndex) -> KittiesView {
        KittiesView {
            owned_kitties: self.owned_kitties.insert((owner, own_kitty_id), kitty_id),
            owned_kitties_count: self.owned_kitties_count.insert(owner, (own_kitty_id + 1) as KittyIndex),
            ..self
        }
    }

    /// The first check that refuses a breeding of `kitty_id_1` and
    /// `kitty_id_2`, if any.
    pub open spec fn breed_error(self, kitty_id_1: KittyIndex, kitty_id_2: KittyIndex) -> Option<KittyError> {
        if !self.kitties.contains_key(kitty_id_1) {
            Some(KittyError::InvalidKittyId1)
        } else if !self.kitties.contains_key(kitty_id_2) {
            Some(KittyError::InvalidKittyId2)
        } else if kitty_id_1 == kitty_id_2 {
            Some(KittyError::SameParent)
        } else if self.kitties_count == KittyIndex::MAX {
            Some(KittyError::CountOverflow)
        } else {
            None
        }
    }

    /// The first check that refuses a transfer of `sender`'s slot
    /// `own_kitty_id` to `receiver`, if any.
    pub open spec fn transfer_error(self, sender: AccountId, own_kitty_id: KittyIndex, receiver: AccountId) -> Option<KittyError> {
        if !self.owned_kitties.contains_key((sender, own_kitty_id)) {
            Some(KittyError::NotOwned)
        } else if self.owned_count_of(receiver) == KittyIndex::MAX {
            Some(KittyError::ReceiverCountOverflow)
        } else {
            None
        }
    }

    /// Every slot of `owner` below its slot count holds a kitty.
    pub open spec fn slots_filled(self, owner: AccountId) -> bool {
        forall|i: KittyIndex| i < self.owned_count_of(owner) ==> #[trigger] self.owned_kitties.contains_key((owner, i))
    }

    /// No kitty is held in two slots.
    pub open spec fn held_once(self) -> bool {
        forall|a1: AccountId, i1: KittyIndex, a2: AccountId, i2: KittyIndex|
            #[trigger] self.owned_kitties.contains_key((a1, i1)) && #[trigger] self.owned_kitties.contains_key((a2, i2))
                && self.owned_kitties[(a1, i1)] == self.owned_kitties[(a2, i2)] ==> a1 == a2 && i1 == i2
    }

    /// Some slot holds kitty `kitty_id`.
    pub open spec fn is_held(self, kitty_id: KittyIndex) -> bool {
        exists|a: AccountId, i: KittyIndex| #[trigger] self.owned_kitties.contains_key((a, i))
            && self.owned_kitties[(a, i)] == kitty_id
    }

    /// The slots are sound: storage is well formed, every account's slots
    /// are filled up to its slot count, and no kitty is held in two slots.
    pub open spec fn slots_sound(self) -> bool {
        &&& self.wf()
        &&& forall|a: AccountId| #[trigger] self.slots_filled(a)
        &&& self.held_once()
    }

    /// Ownership is sound: the slots are sound and every kitty is held, so
    /// each kitty has exactly one owner.
    pub open spec fn sound_ownership(self) -> bool {
        &&& self.slots_sound()
        &&& forall|j: KittyIndex| #[trigger] self.kitties.contains_key(j) ==> self.is_held(j)
    }

    /// Storage after a successful transfer of `sender`'s slot `own_kitty_id`
    /// to `receiver`: the slot is emptied, then the kitty goes into the slot
    /// after the receiver's last.
    pub open spec fn transfer(self, sender: AccountId, own_kitty_id: KittyIndex, receiver: AccountId) -> KittiesView {
        let removed = self.remove_own(sender, own_kitty_id);
        removed.insert_own(
            receiver,
            removed.owned_count_of(receiver),
            self.owned_kitties[(sender, own_kitty_id)],
        )
    }
}

/// The kitties module: its storage.
pub struct Module {
    kitties: BTreeMap<KittyIndex, Kitty>,
    kitties_count: KittyIndex,
    owned_kitties: BTreeMap<(AccountId, KittyIndex), KittyIndex>,
    owned_kitties_count: BTreeMap<AccountId, KittyIndex>,
}

impl View for Module {
    type V = KittiesView;

    closed spec fn view(&self) -> KittiesView {
        KittiesView {
            kitties: self.kitties@,
            kitties_count: self.kitties_count,
            owned_kitties: self.owned_kitties@,
            owned_kitties_count: self.owned_kitties_count@,
        }
    }
}

impl Module {
    /// Empty storage.
    pub fn new() -> (m: Module)
        ensures
            m@.kitties == Map::<KittyIndex, Kitty>::empty(),
            m@.kitties_count == 0,
            m@.owned_kitties == Map::<(AccountId, KittyIndex), KittyIndex>::empty(),
            m@.owned_kitties_count == Map::<AccountId, KittyIndex>::empty(),
            m@.sound_ownership(),
    {
        Module {
            kitties: BTreeMap::new(),
            kitties_count: 0,
            owned_kitties: BTreeMap::new(),
            owned_kitties_count: BTreeMap::new(),
        }
    }

    /// The kitty stored under `kitty_id`, if any.
    pub fn kitty(&self, kitty_id: KittyIndex) -> (k: Option<Kitty>)
        ensures
            k == (if self@.kitties.contains_key(kitty_id) { Some(self@.kitties[kitty_id]) } else { None }),
    {
        match self.kitties.get(&kitty_id) {
            Some(k) => Some(*k),
            None => None,
        }
    }

    /// The number of kitties.
    pub fn kitties_count(&self) -> (n: KittyIndex)
        ensures
            n == self@.kitties_count,
    {
        self.kitties_count
    }

    /// The kitty index that `owner` holds in slot `own_kitty_id`, if any.
    pub fn owned_kitties(&self, owner: AccountId, own_kitty_id: KittyIndex) -> (k: Option<KittyIndex>)
        ensures
            k == (if self@.owned_kitties.contains_key((owner, own_kitty_id)) {
                Some(self@.owned_kitties[(owner, own_kitty_id)])
            } else {
                None
            }),
    {
        match self.owned_kitties.get(&(owner, own_kitty_id)) {
            Some(k) => Some(*k),
            None => None,
        }
    }

    /// The number of slots of `owner`.
    pub fn owned_kitties_count(&self, owner: AccountId) -> (n: KittyIndex)
        ensures
            n == self@.owned_count_of(owner),
    {
        match self.owned_kitties_count.get(&owner) {
            Some(n) => *n,
            None => 0,
        }
    }

    /// The index for the next kitty, unless every index is taken.
    pub fn next_kitty_id(&self) -> (r: Result<KittyIndex, KittyError>)
        ensures
            self@.kitties_count == KittyIndex::MAX ==> r == Err::<KittyIndex, KittyError>(KittyError::CountOverflow),
            self@.kitties_count < KittyIndex::MAX ==> r == Ok::<KittyIndex, KittyError>(self@.kitties_count),
    {
        let kitty_id = self.kitties_count;
        if kitty_id == KittyIndex::MAX {
            return Err(KittyError::CountOverflow);
        }
        Ok(kitty_id)
    }

    /// Stores `kitty` under `kitty_id`, makes the count the index after it,
    /// and gives the kitty to `owner` in its next slot.
    pub fn insert_kitty(&mut self, owner: AccountId, kitty_id: KittyIndex, kitty: Kitty)
        requires
            kitty_id < KittyIndex::MAX,
            old(self)@.owned_count_of(owner) < KittyIndex::MAX,
        ensures
            final(self)@ == old(self)@.insert_kitty(owner, kitty_id, kitty),
            final(self)@.kitties.contains_key(kitty_id),
            final(self)@.kitties[kitty_id] == kitty,
            final(self)@.kitties_count == kitty_id + 1,
            final(self)@.owned_kitties.contains_key((owner, old(self)@.owned_count_of(owner))),
            final(self)@.owned_kitties[(owner, old(self)@.owned_count_of(owner))] == kitty_id,
            final(self)@.owned_count_of(owner) == old(self)@.owned_count_of(owner) + 1,
            old(self)@.wf() && kitty_id == old(self)@.kitties_count ==> final(self)@.wf(),
            old(self)@.sound_ownership() && kitty_id == old(self)@.kitties_count ==> final(self)@.sound_ownership(),
    {
        proof {
            if old(self)@.sound_ownership() && kitty_id == old(self)@.kitties_count {
                lemma_insert_kitty_keeps_sound_ownership(old(self)@, owner, kitty);
            }
        }
        self.kitties.insert(kitty_id, kitty);
        self.kitties_count = kitty_id + 1;
        let user_kitties_id = self.owned_kitties_count(owner);
        self.owned_kitties.insert((owner, user_kitties_id), kitty_id);
        self.owned_kitties_count.insert(owner, user_kitties_id + 1);
    }

    /// Creates a kitty for `sender` whose DNA is `random`: the blake2-128
    /// hash of `random_payload` for the sender.
    pub fn create(&mut self, sender: AccountId, random: [u8; 16]) -> (r: Result<(), KittyError>)
        requires
            old(self)@.wf(),
            old(self)@.kitties_count < KittyIndex::MAX ==> old(self)@.owned_count_of(sender) < KittyIndex::MAX,
        ensures
            final(self)@.wf(),
            old(self)@.sound_ownership() ==> final(self)@.sound_ownership(),
            old(self)@.kitties_count == KittyIndex::MAX ==> r == Err::<(), KittyError>(KittyError::CountOverflow)
                && final(self)@ == old(self)@,
            old(self)@.kitties_count < KittyIndex::MAX ==> r == Ok::<(), KittyError>(())
                && final(self)@ == old(self)@.insert_kitty(sender, old(self)@.kitties_count, Kitty(random)),
            old(self)@.kitties_count < KittyIndex::MAX ==> {
                let c = old(self)@.kitties_count;
                &&& final(self)@.kitties.contains_key(c)
                &&& final(self)@.kitties[c].0 == random
                &&& final(self)@.kitties_count == c + 1
                &&& final(self)@.owned_kitties[(sender, old(self)@.owned_count_of(sender))] == c
                &&& final(self)@.owned_count_of(sender) == old(self)@.owned_count_of(sender) + 1
            },
    {
        let new_kitty_id = match self.next_kitty_id() {
            Ok(id) => id,
            Err(e) => return Err(e),
        };
        proof {
            if old(self)@.sound_ownership() {
                lemma_insert_kitty_keeps_sound_ownership(old(self)@, sender, Kitty(random));
            }
        }
        self.insert_kitty(sender, new_kitty_id, Kitty(random));
        Ok(())
    }
    /// Breeds a kitty for `sender` from `kitty_id_1` and `kitty_id_2`: each
    /// DNA byte mixes the parents' bytes under the matching byte of
    /// `selector`, the blake2-128 hash of `random_payload` for the sender.
    pub fn do_breed(&mut self, sender: AccountId, kitty_id_1: KittyIndex, kitty_id_2: KittyIndex, selector: [u8; 16]) -> (r: Result<(), KittyError>)
        requires
            old(self)@.wf(),
            old(self)@.breed_error(kitty_id_1, kitty_id_2) is None ==> old(self)@.owned_count_of(sender) < KittyIndex::MAX,
        ensures
            final(self)@.wf(),
            old(self)@.sound_ownership() ==> final(self)@.sound_ownership(),
            old(self)@.breed_error(kitty_id_1, kitty_id_2) matches Some(e) ==> r == Err::<(), KittyError>(e)
                && final(self)@ == old(self)@,
            old(self)@.breed_error(kitty_id_1, kitty_id_2) is None ==> {
                let c = old(self)@.kitties_count;
                &&& r == Ok::<(), KittyError>(())
                &&& final(self)@ == old(self)@.insert_kitty(sender, c, final(self)@.kitties[c])
                &&& final(self)@.kitties[c].0@ == mixed_dna(
                    old(self)@.kitties[kitty_id_1].0,
                    old(self)@.kitties[kitty_id_2].0,
                    selector,
                )
                &&& final(self)@.kitties.contains_key(c)
                &&& final(self)@.kitties_count == c + 1
                &&& forall|i: int| 0 <= i < 16 ==> #[trigger] final(self)@.kitties[c].0[i]
                    == (old(self)@.kitties[kitty_id_1].0[i] & selector[i])
                        | (old(self)@.kitties[kitty_id_2].0[i] & !selector[i])
                &&& final(self)@.owned_kitties[(sender, old(self)@.owned_count_of(sender))] == c
                &&& final(self)@.owned_count_of(sender) == old(self)@.owned_count_of(sender) + 1
            },
    {
        let kitty1 = self.kitty(kitty_id_1);
        let kitty2 = self.kitty(kitty_id_2);
        if kitty1.is_none() {
            return Err(KittyError::InvalidKittyId1);
        }
        if kitty2.is_none() {
            return Err(KittyError::InvalidKittyId2);
        }
        if kitty_id_1 == kitty_id_2 {
            return Err(KittyError::SameParent);
        }
        let kitty_id = match self.next_kitty_id() {
            Ok(id) => id,
            Err(e) => return Err(e),
        };
        let kitty1_dna = kitty1.unwrap().0;
        let kitty2_dna = kitty2.unwrap().0;
        let mut new_dna = [0u8; 16];
        for i in 0..16
            invariant
                forall|j: int| 0 <= j < i ==> new_dna[j] == (kitty1_dna[j] & selector[j]) | (kitty2_dna[j] & !selector[j]),
        {
            new_dna[i] = combine_dna(kitty1_dna[i], kitty2_dna[i], selector[i]);
        }
        assert(new_dna@ =~= mixed_dna(kitty1_dna, kitty2_dna, selector));
        proof {
            if old(self)@.sound_ownership() {
                lemma_insert_kitty_keeps_sound_ownership(old(self)@, sender, Kitty(new_dna));
            }
        }
        self.insert_kitty(sender, kitty_id, Kitty(new_dna));
        Ok(())
    }

    /// The kitty index in `sender`'s slot `own_kitty_id`.
    pub fn search_own_kitty(&self, sender: AccountId, own_kitty_id: KittyIndex) -> (r: Result<KittyIndex, KittyError>)
        ensures
            self@.owned_kitties.contains_key((sender, own_kitty_id))
                ==> r == Ok::<KittyIndex, KittyError>(self@.owned_kitties[(sender, own_kitty_id)]),
            !self@.owned_kitties.contains_key((sender, own_kitty_id))
                ==> r == Err::<KittyIndex, KittyError>(KittyError::NotOwned),
    {
        match self.owned_kitties(sender, own_kitty_id) {
            Some(kitty_id) => Ok(kitty_id),
            None => Err(KittyError::NotOwned),
        }
    }

    /// Empties `owner`'s slot `own_kitty_id` as `KittiesView::remove_own`
    /// describes. The slot count must be at least one.
    pub fn remove_own_kitty(&mut self, owner: AccountId, own_kitty_id: KittyIndex)
        requires
            old(self)@.owned_count_of(owner) >= 1,
        ensures
            final(self)@ == old(self)@.remove_own(owner, own_kitty_id),
            old(self)@.wf() ==> final(self)@.wf(),
            old(self)@.sound_ownership() && old(self)@.owned_kitties.contains_key((owner, own_kitty_id))
                ==> final(self)@.slots_sound(),
            ({
                let last = (old(self)@.owned_count_of(owner) - 1) as KittyIndex;
                let o = old(self)@.owned_kitties;
                let n = final(self)@.owned_kitties;
                &&& final(self)@.kitties == old(self)@.kitties
                &&& final(self)@.kitties_count == old(self)@.kitties_count
                &&& !o.contains_key((owner, last)) ==> final(self)@ == old(self)@
                &&& o.contains_key((owner, last)) ==> {
                    &&& final(self)@.owned_count_of(owner) == last
                    &&& !n.contains_key((owner, last))
                    &&& last > own_kitty_id ==> n.contains_key((owner, own_kitty_id))
                        && n[(owner, own_kitty_id)] == o[(owner, last)]
                    &&& last <= own_kitty_id ==> !n.contains_key((owner, own_kitty_id))
                    &&& forall|a: AccountId, i: KittyIndex| (a, i) != (owner, own_kitty_id) && (a, i) != (owner, last)
                        ==> #[trigger] n.contains_key((a, i)) == o.contains_key((a, i))
                            && (o.contains_key((a, i)) ==> n[(a, i)] == o[(a, i)])
                    &&& forall|a: AccountId| a != owner ==> #[trigger] final(self)@.owned_count_of(a) == old(self)@.owned_count_of(a)
                }
            }),
            old(self)@.sound_ownership() && old(self)@.owned_kitties.contains_key((owner, own_kitty_id)) ==> {
                let kitty_id = old(self)@.owned_kitties[(owner, own_kitty_id)];
                &&& final(self)@.owned_count_of(owner) == old(self)@.owned_count_of(owner) - 1
                &&& forall|i: KittyIndex| #[trigger] final(self)@.owned_kitties.contains_key((owner, i))
                    <==> i < final(self)@.owned_count_of(owner)
                &&& forall|a: AccountId, i: KittyIndex| #[trigger] final(self)@.owned_kitties.contains_key((a, i))
                    ==> final(self)@.owned_kitties[(a, i)] != kitty_id
            },
    {
        proof {
            if old(self)@.sound_ownership() && old(self)@.owned_kitties.contains_key((owner, own_kitty_id)) {
                lemma_remove_own_keeps_sound_ownership(old(self)@, owner, own_kitty_id);
            }
        }
        let own_count = self.owned_kitties_count(owner);
        let last = own_count - 1;
        match self.owned_kitties(owner, last) {
            Some(final_kitty_id) => {
                self.owned_kitties.remove(&(owner, own_kitty_id));
                self.owned_kitties.remove(&(owner, last));
                if last > own_kitty_id {
                    self.owned_kitties.insert((owner, own_kitty_id), final_kitty_id);
                }
                self.owned_kitties_count.insert(owner, last);
            },
            None => {},
        }
    }

    /// Puts `kitty_id` in `owner`'s slot `own_kitty_id` and makes the slot
    /// count the slot after it.
    pub fn insert_own_kitty(&mut self, owner: AccountId, own_kitty_id: KittyIndex, kitty_id: KittyIndex)
        requires
            own_kitty_id < KittyIndex::MAX,
        ensures
            final(self)@ == old(self)@.insert_own(owner, own_kitty_id, kitty_id),
            old(self)@.wf() && old(self)@.kitties.contains_key(kitty_id) && own_kitty_id >= old(self)@.owned_count_of(owner)
                ==> final(self)@.wf(),
            final(self)@.owned_kitties.contains_key((owner, own_kitty_id)),
            final(self)@.owned_kitties[(owner, own_kitty_id)] == kitty_id,
            final(self)@.owned_count_of(owner) == own_kitty_id + 1,
            forall|a: AccountId, i: KittyIndex| (a, i) != (owner, own_kitty_id)
                ==> #[trigger] final(self)@.owned_kitties.contains_key((a, i)) == old(self)@.owned_kitties.contains_key((a, i))
                    && (old(self)@.owned_kitties.contains_key((a, i)) ==> final(self)@.owned_kitties[(a, i)] == old(self)@.owned_kitties[(a, i)]),
            forall|a: AccountId| a != owner ==> #[trigger] final(self)@.owned_count_of(a) == old(self)@.owned_count_of(a),
            final(self)@.kitties == old(self)@.kitties,
            final(self)@.kitties_count == old(self)@.kitties_count,
    {
        self.owned_kitties.insert((owner, own_kitty_id), kitty_id);
        self.owned_kitties_count.insert(owner, own_kitty_id + 1);
    }

    /// Moves the kitty in `sender`'s slot `own_kitty_id` to a new slot of
    /// `receiver`.
    pub fn transfer_kitty(&mut self, sender: AccountId, own_kitty_id: KittyIndex, receiver: AccountId) -> (r: Result<(), KittyError>)
        requires
            old(self)@.wf(),
        ensures
            final(self)@.wf(),
            old(self)@.sound_ownership() ==> final(self)@.sound_ownership(),
            old(self)@.transfer_error(sender, own_kitty_id, receiver) matches Some(e)
                ==> r == Err::<(), KittyError>(e) && final(self)@ == old(self)@,
            old(self)@.transfer_error(sender, own_kitty_id, receiver) is None
                ==> r == Ok::<(), KittyError>(()) && final(self)@ == old(self)@.transfer(sender, own_kitty_id, receiver),
            old(self)@.transfer_error(sender, own_kitty_id, receiver) is None ==> {
                let kitty_id = old(self)@.owned_kitties[(sender, own_kitty_id)];
                let slot = (final(self)@.owned_count_of(receiver) - 1) as KittyIndex;
                &&& final(self)@.kitties == old(self)@.kitties
                &&& final(self)@.kitties_count == old(self)@.kitties_count
                &&& final(self)@.owned_count_of(receiver) >= 1
                &&& final(self)@.owned_kitties.contains_key((receiver, slot))
                &&& final(self)@.owned_kitties[(receiver, slot)] == kitty_id
            },
            old(self)@.transfer_error(sender, own_kitty_id, receiver) is None && old(self)@.sound_ownership() ==> {
                let kitty_id = old(self)@.owned_kitties[(sender, own_kitty_id)];
                let slot = final(self)@.owned_count_of(receiver) - 1;
                &&& forall|a: AccountId, i: KittyIndex| #[trigger] final(self)@.owned_kitties.contains_key((a, i))
                    && final(self)@.owned_kitties[(a, i)] == kitty_id ==> a == receiver && i == slot
                &&& sender != receiver ==> final(self)@.owned_count_of(sender) == old(self)@.owned_count_of(sender) - 1
                    && final(self)@.owned_count_of(receiver) == old(self)@.owned_count_of(receiver) + 1
                &&& sender == receiver ==> final(self)@.owned_count_of(sender) == old(self)@.owned_count_of(sender)
            },
    {
        let kitty_id = match self.search_own_kitty(sender, own_kitty_id) {
            Ok(id) => id,
            Err(e) => return Err(e),
        };
        let kitty_count = self.owned_kitties_count(receiver);
        if kitty_count == KittyIndex::MAX {
            return Err(KittyError::ReceiverCountOverflow);
        }
        self.remove_own_kitty(sender, own_kitty_id);
        let slot = self.owned_kitties_count(receiver);
        self.insert_own_kitty(receiver, slot, kitty_id);
        proof {
            if old(self)@.sound_ownership() {
                lemma_transfer_keeps_sound_ownership(old(self)@, sender, own_kitty_id, receiver);
            }
        }
        Ok(())
    }
}

/// Every bit of a mixed DNA byte is the same bit of one of the parents, and
/// parents with the same byte pass it on unchanged.
pub proof fn lemma_combine_dna_inherits(dna1: u8, dna2: u8, selector: u8, bit: u8)
    by (bit_vector)
    requires
        bit < 8,
    ensures
        ((((dna1 & selector) | (dna2 & !selector)) >> bit) & 1u8) == ((dna1 >> bit) & 1u8)
            || ((((dna1 & selector) | (dna2 & !selector)) >> bit) & 1u8) == ((dna2 >> bit) & 1u8),
        ((dna1 & selector) | (dna1 & !selector)) == dna1,
{
}

/// Storing a new kitty under the next index for `owner` (as `create` and
/// `do_breed` do) keeps ownership sound: slots stay filled and each kitty has
/// exactly one owner, the new kitty `owner`.
pub proof fn lemma_insert_kitty_keeps_sound_ownership(v: KittiesView, owner: AccountId, kitty: Kitty)
    requires
        v.sound_ownership(),
        v.kitties_count < KittyIndex::MAX,
        v.owned_count_of(owner) < KittyIndex::MAX,
    ensures
        v.insert_kitty(owner, v.kitties_count, kitty).sound_ownership(),
{
    let w = v.insert_kitty(owner, v.kitties_count, kitty);
    let slot = v.owned_count_of(owner);
    assert(!v.owned_kitties.contains_key((owner, slot)));
    assert forall|a: AccountId| #[trigger] w.slots_filled(a) by {
        assert(v.slots_filled(a));
        assert forall|i: KittyIndex| i < w.owned_count_of(a) implies #[trigger] w.owned_kitties.contains_key((a, i)) by {
            if a == owner && i < slot {
                assert(v.owned_kitties.contains_key((a, i)));
            } else if a != owner {
                assert(v.owned_kitties.contains_key((a, i)));
            }
        }
    }
    assert forall|a1: AccountId, i1: KittyIndex, a2: AccountId, i2: KittyIndex|
        #[trigger] w.owned_kitties.contains_key((a1, i1)) && #[trigger] w.owned_kitties.contains_key((a2, i2))
            && w.owned_kitties[(a1, i1)] == w.owned_kitties[(a2, i2)] implies a1 == a2 && i1 == i2 by {
        if (a1, i1) != (owner, slot) && (a2, i2) != (owner, slot) {
            assert(v.owned_kitties.contains_key((a1, i1)) && v.owned_kitties.contains_key((a2, i2)));
        } else if (a1, i1) != (owner, slot) {
            assert(v.kitties.contains_key(v.owned_kitties[(a1, i1)]));
        } else if (a2, i2) != (owner, slot) {
            assert(v.kitties.contains_key(v.owned_kitties[(a2, i2)]));
        }
    }
    assert forall|j: KittyIndex| #[trigger] w.kitties.contains_key(j) implies w.is_held(j) by {
        if j == v.kitties_count {
            assert(w.owned_kitties.contains_key((owner, slot)));
        } else {
            assert(v.is_held(j));
            let (a, i) = choose|a: AccountId, i: KittyIndex| #[trigger] v.owned_kitties.contains_key((a, i))
                && v.owned_kitties[(a, i)] == j;
            assert(w.owned_kitties.contains_key((a, i)));
        }
    }
}

/// Storing a new kitty under the next index leaves every existing kitty as
/// it was and adds exactly one.
pub proof fn lemma_insert_kitty_keeps_kitties(v: KittiesView, owner: AccountId, kitty: Kitty, id: KittyIndex)
    requires
        v.wf(),
        v.kitties_count < KittyIndex::MAX,
        v.kitties.contains_key(id),
    ensures
        v.insert_kitty(owner, v.kitties_count, kitty).kitties.contains_key(id),
        v.insert_kitty(owner, v.kitties_count, kitty).kitties[id] == v.kitties[id],
        v.insert_kitty(owner, v.kitties_count, kitty).kitties_count == v.kitties_count + 1,
{
}

/// The slot of the storage before a transfer whose kitty ends up in slot
/// `key` after it.
pub open spec fn transfer_source(
    v: KittiesView,
    sender: AccountId,
    own_kitty_id: KittyIndex,
    receiver: AccountId,
    key: (AccountId, KittyIndex),
) -> (AccountId, KittyIndex) {
    let last = (v.owned_count_of(sender) - 1) as KittyIndex;
    let slot = v.remove_own(sender, own_kitty_id).owned_count_of(receiver);
    if key == (receiver, slot) {
        (sender, own_kitty_id)
    } else if key == (sender, own_kitty_id) && last > own_kitty_id {
        (sender, last)
    } else {
        key
    }
}

/// A transfer between accounts whose ownership is sound keeps it sound,
/// whether the slot is the sender's last or not and whether the receiver is
/// the sender or not: afterwards the receiver holds the kitty in the slot
/// after its last, no other slot holds it, no kitty changes, and the sender
/// has one kitty fewer and the receiver one more (the same number when they
/// are one account).
pub proof fn lemma_transfer_keeps_sound_ownership(v: KittiesView, sender: AccountId, own_kitty_id: KittyIndex, receiver: AccountId)
    requires
        v.sound_ownership(),
        v.transfer_error(sender, own_kitty_id, receiver) is None,
    ensures
        ({
            let w = v.transfer(sender, own_kitty_id, receiver);
            let kitty_id = v.owned_kitties[(sender, own_kitty_id)];
            let slot = w.owned_count_of(receiver) - 1;
            &&& w.sound_ownership()
            &&& w.kitties == v.kitties
            &&& w.kitties_count == v.kitties_count
            &&& w.owned_kitties.contains_key((receiver, slot as KittyIndex))
            &&& w.owned_kitties[(receiver, slot as KittyIndex)] == kitty_id
            &&& forall|a: AccountId, i: KittyIndex| #[trigger] w.owned_kitties.contains_key((a, i))
                && w.owned_kitties[(a, i)] == kitty_id ==> a == receiver && i == slot
            &&& sender != receiver ==> w.owned_count_of(sender) == v.owned_count_of(sender) - 1
                && w.owned_count_of(receiver) == v.owned_count_of(receiver) + 1
            &&& sender == receiver ==> w.owned_count_of(sender) == v.owned_count_of(sender)
            &&& forall|a: AccountId| a != sender && a != receiver ==> #[trigger] w.owned_count_of(a) == v.owned_count_of(a)
        }),
{
    let w = v.transfer(sender, own_kitty_id, receiver);
    let u = v.remove_own(sender, own_kitty_id);
    let c = v.owned_count_of(sender);
    let last = (c - 1) as KittyIndex;
    let k = v.owned_kitties[(sender, own_kitty_id)];
    assert(own_kitty_id < c);
    assert(v.slots_filled(sender));
    assert(v.owned_kitties.contains_key((sender, last)));
    let f = v.owned_kitties[(sender, last)];
    let rc = u.owned_count_of(receiver);
    assert(u.owned_count_of(sender) == last);
    assert(sender != receiver ==> rc == v.owned_count_of(receiver));
    assert(sender == receiver ==> rc == last);
    assert(w.owned_count_of(receiver) == rc + 1);
    assert(sender != receiver ==> w.owned_count_of(sender) == last);
    assert(!u.owned_kitties.contains_key((receiver, rc)));
    assert(w.owned_kitties == u.owned_kitties.insert((receiver, rc), k));
    assert forall|a: AccountId| a != sender && a != receiver implies #[trigger] w.owned_count_of(a) == v.owned_count_of(a) by {}
    // Every slot after the transfer holds the kitty of its source slot before.
    assert forall|a: AccountId, i: KittyIndex| #[trigger] w.owned_kitties.contains_key((a, i)) implies {
        let p = transfer_source(v, sender, own_kitty_id, receiver, (a, i));
        &&& v.owned_kitties.contains_key(p)
        &&& w.owned_kitties[(a, i)] == v.owned_kitties[p]
        &&& i < w.owned_count_of(a)
    } by {
        if (a, i) != (receiver, rc) && !((a, i) == (sender, own_kitty_id) && last > own_kitty_id) {
            assert(v.owned_kitties.contains_key((a, i)));
            assert((a, i) != (sender, last));
        }
    }
    // Distinct slots after the transfer come from distinct slots before.
    assert forall|a1: AccountId, i1: KittyIndex, a2: AccountId, i2: KittyIndex|
        #[trigger] w.owned_kitties.contains_key((a1, i1)) && #[trigger] w.owned_kitties.contains_key((a2, i2))
            && transfer_source(v, sender, own_kitty_id, receiver, (a1, i1))
            == transfer_source(v, sender, own_kitty_id, receiver, (a2, i2)) implies a1 == a2 && i1 == i2 by {
        if (a1, i1) != (receiver, rc) && !((a1, i1) == (sender, own_kitty_id) && last > own_kitty_id) {
            assert((a1, i1) != (sender, last));
            assert((a1, i1) != (sender, own_kitty_id));
        }
        if (a2, i2) != (receiver, rc) && !((a2, i2) == (sender, own_kitty_id) && last > own_kitty_id) {
            assert((a2, i2) != (sender, last));
            assert((a2, i2) != (sender, own_kitty_id));
        }
    }
    assert forall|a1: AccountId, i1: KittyIndex, a2: AccountId, i2: KittyIndex|
        #[trigger] w.owned_kitties.contains_key((a1, i1)) && #[trigger] w.owned_kitties.contains_key((a2, i2))
            && w.owned_kitties[(a1, i1)] == w.owned_kitties[(a2, i2)] implies a1 == a2 && i1 == i2 by {
        let p1 = transfer_source(v, sender, own_kitty_id, receiver, (a1, i1));
        let p2 = transfer_source(v, sender, own_kitty_id, receiver, (a2, i2));
        assert(v.owned_kitties.contains_key(p1) && v.owned_kitties.contains_key(p2));
        assert(v.owned_kitties[p1] == v.owned_kitties[p2]);
        assert(p1 == p2);
    }
    assert forall|a: AccountId, i: KittyIndex| #[trigger] w.owned_kitties.contains_key((a, i))
        implies i < w.owned_count_of(a) && w.kitties.contains_key(w.owned_kitties[(a, i)]) by {
        let p = transfer_source(v, sender, own_kitty_id, receiver, (a, i));
        assert(v.owned_kitties.contains_key(p));
    }
    assert forall|a: AccountId| #[trigger] w.slots_filled(a) by {
        assert(v.slots_filled(a));
        assert forall|i: KittyIndex| i < w.owned_count_of(a) implies #[trigger] w.owned_kitties.contains_key((a, i)) by {
            if (a, i) != (receiver, rc) {
                if a == sender {
                    if i != own_kitty_id {
                        assert(v.owned_kitties.contains_key((a, i)));
                    }
                } else {
                    assert(v.owned_kitties.contains_key((a, i)));
                }
            }
        }
    }
    assert(w.owned_kitties[(receiver, rc)] == k);
    assert forall|j: KittyIndex| #[trigger] w.kitties.contains_key(j) implies w.is_held(j) by {
        assert(v.is_held(j));
        let (a, i) = choose|a: AccountId, i: KittyIndex| #[trigger] v.owned_kitties.contains_key((a, i))
            && v.owned_kitties[(a, i)] == j;
        if (a, i) == (sender, own_kitty_id) {
            assert(w.owned_kitties.contains_key((receiver, rc)));
        } else if (a, i) == (sender, last) {
            assert(w.owned_kitties.contains_key((sender, own_kitty_id)));
            assert(w.owned_kitties[(sender, own_kitty_id)] == f);
        } else {
            assert(u.owned_kitties.contains_key((a, i)));
            assert(w.owned_kitties.contains_key((a, i)));
        }
    }
}

/// Emptying a held slot of an account whose ownership is sound keeps the
/// slots sound: the account's slots stay a gap-free run below its count,
/// which drops by one, the kitty of the emptied slot is held nowhere, and
/// every other kitty is still held.
pub proof fn lemma_remove_own_keeps_sound_ownership(v: KittiesView, owner: AccountId, own_kitty_id: KittyIndex)
    requires
        v.sound_ownership(),
        v.owned_kitties.contains_key((owner, own_kitty_id)),
    ensures
        ({
            let w = v.remove_own(owner, own_kitty_id);
            let kitty_id = v.owned_kitties[(owner, own_kitty_id)];
            &&& w.slots_sound()
            &&& forall|j: KittyIndex| #[trigger] w.kitties.contains_key(j) && j != kitty_id ==> w.is_held(j)
            &&& w.owned_count_of(owner) == v.owned_count_of(owner) - 1
            &&& forall|i: KittyIndex| #[trigger] w.owned_kitties.contains_key((owner, i)) <==> i < w.owned_count_of(owner)
            &&& forall|a: AccountId, i: KittyIndex| #[trigger] w.owned_kitties.contains_key((a, i))
                ==> w.owned_kitties[(a, i)] != kitty_id
        }),
{
    let w = v.remove_own(owner, own_kitty_id);
    let c = v.owned_count_of(owner);
    let last = (c - 1) as KittyIndex;
    let k = v.owned_kitties[(owner, own_kitty_id)];
    assert(v.slots_filled(owner));
    assert(v.owned_kitties.contains_key((owner, last)));
    let src = |key: (AccountId, KittyIndex)| if key == (owner, own_kitty_id) && last > own_kitty_id { (owner, last) } else { key };
    assert forall|a: AccountId, i: KittyIndex| #[trigger] w.owned_kitties.contains_key((a, i)) implies {
        &&& v.owned_kitties.contains_key(src((a, i)))
        &&& w.owned_kitties[(a, i)] == v.owned_kitties[src((a, i))]
        &&& src((a, i)) != (owner, own_kitty_id)
        &&& i < w.owned_count_of(a)
        &&& w.kitties.contains_key(w.owned_kitties[(a, i)])
    } by {
        if !((a, i) == (owner, own_kitty_id) && last > own_kitty_id) {
            assert(v.owned_kitties.contains_key((a, i)));
        }
    }
    assert forall|a1: AccountId, i1: KittyIndex, a2: AccountId, i2: KittyIndex|
        #[trigger] w.owned_kitties.contains_key((a1, i1)) && #[trigger] w.owned_kitties.contains_key((a2, i2))
            && w.owned_kitties[(a1, i1)] == w.owned_kitties[(a2, i2)] implies a1 == a2 && i1 == i2 by {
        assert(v.owned_kitties.contains_key(src((a1, i1))) && v.owned_kitties.contains_key(src((a2, i2))));
        assert(src((a1, i1)) == src((a2, i2)));
    }
    assert forall|a: AccountId| #[trigger] w.slots_filled(a) by {
        assert(v.slots_filled(a));
        assert forall|i: KittyIndex| i < w.owned_count_of(a) implies #[trigger] w.owned_kitties.contains_key((a, i)) by {
            if !(a == owner && i == own_kitty_id) {
                assert(v.owned_kitties.contains_key((a, i)));
            }
        }
    }
    assert forall|a: AccountId, i: KittyIndex| #[trigger] w.owned_kitties.contains_key((a, i))
        implies w.owned_kitties[(a, i)] != k by {
        assert(v.owned_kitties.contains_key(src((a, i))));
    }
    assert forall|i: KittyIndex| #[trigger] w.owned_kitties.contains_key((owner, i)) <==> i < w.owned_count_of(owner) by {
        assert(w.slots_filled(owner));
    }
    assert forall|j: KittyIndex| #[trigger] w.kitties.contains_key(j) && j != k implies w.is_held(j) by {
        assert(v.is_held(j));
        let (a, i) = choose|a: AccountId, i: KittyIndex| #[trigger] v.owned_kitties.contains_key((a, i))
            && v.owned_kitties[(a, i)] == j;
        if (a, i) == (owner, last) && last > own_kitty_id {
            assert(w.owned_kitties.contains_key((owner, own_kitty_id)));
        } else {
            assert(w.owned_kitties.contains_key((a, i)));
        }
    }
}

/// Giving `owner` a kitty in the slot after its last and then emptying that
/// slot restores the storage: the same kitties and slots, and the same slot
/// count for every account.
pub proof fn lemma_insert_then_remove_own_restores(v: KittiesView, owner: AccountId, kitty_id: KittyIndex)
    requires
        v.wf(),
        v.owned_count_of(owner) < KittyIndex::MAX,
    ensures
        ({
            let c = v.owned_count_of(owner);
            let w = v.insert_own(owner, c, kitty_id).remove_own(owner, c);
            &&& w.kitties == v.kitties
            &&& w.kitties_count == v.kitties_count
            &&& w.owned_kitties == v.owned_kitties
            &&& forall|a: AccountId| #[trigger] w.owned_count_of(a) == v.owned_count_of(a)
        }),
{
    let c = v.owned_count_of(owner);
    let u = v.insert_own(owner, c, kitty_id);
    let w = u.remove_own(owner, c);
    assert(!v.owned_kitties.contains_key((owner, c)));
    assert(w.owned_kitties =~= v.owned_kitties);
}

/// A bred DNA has sixteen bytes, and each byte takes the first parent's bits
/// where the selector byte has ones and the second parent's elsewhere.
pub proof fn lemma_mixed_dna_mixes_every_byte(dna1: [u8; 16], dna2: [u8; 16], selector: [u8; 16])
    ensures
        mixed_dna(dna1, dna2, selector).len() == 16,
        forall|i: int| 0 <= i < 16 ==> #[trigger] mixed_dna(dna1, dna2, selector)[i]
            == (dna1[i] & selector[i]) | (dna2[i] & !selector[i]),
{
}

/// Storing a kitty puts it under its index, makes the count the index after
/// it, and gives the owner a new last slot holding it; other accounts keep
/// their slot counts.
pub proof fn lemma_insert_kitty_records(v: KittiesView, owner: AccountId, kitty_id: KittyIndex, kitty: Kitty)
    requires
        kitty_id < KittyIndex::MAX,
        v.owned_count_of(owner) < KittyIndex::MAX,
    ensures
        ({
            let w = v.insert_kitty(owner, kitty_id, kitty);
            let slot = v.owned_count_of(owner);
            &&& w.kitties.contains_key(kitty_id)
            &&& w.kitties[kitty_id] == kitty
            &&& w.kitties_count == kitty_id + 1
            &&& w.owned_kitties.contains_key((owner, slot))
            &&& w.owned_kitties[(owner, slot)] == kitty_id
            &&& w.owned_count_of(owner) == slot + 1
            &&& forall|a: AccountId| a != owner ==> #[trigger] w.owned_count_of(a) == v.owned_count_of(a)
        }),
{
}

} // verus!
