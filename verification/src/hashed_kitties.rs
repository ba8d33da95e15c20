//! Kitties identified by a hash, with a list of all kitties in creation
//! order and an owner for each.

use vstd::prelude::*;
use std::collections::BTreeMap;
use crate::AccountId;
use crate::creation_list::{lemma_listed_once, lemma_lists_exactly_append, lists_exactly};
use crate::hash_index::{H256, HashIndexed, is_zero_hash};

verus! {

broadcast use vstd::std_specs::btree::group_btree_axioms, vstd::laws_cmp::group_laws_cmp;

/// The balance type of prices.
pub type Balance = u128;

/// A kitty: its identifier, its DNA (equal to its identifier when created),
/// its price and its generation.
#[derive(Clone, Copy)]
pub struct Kitty {
    pub id: H256,
    pub dna: H256,
    pub price: Balance,
    pub gen: u64,
}

/// What the module announces.
#[derive(Clone, Copy, Debug)]
pub enum Event {
    /// `AccountId` created the kitty `H256`.
    Created(AccountId, H256),
}

/// Why a call of the module was refused.
#[derive(PartialEq, Eq, Structural, Clone, Copy, Debug)]
pub enum KittyError {
    /// The count of all kitties would overflow.
    CountOverflow,
    /// A kitty with the new identifier exists.
    IdExists,
}

impl KittyError {
    /// The module's message for this error.
    pub fn message(&self) -> (text: &'static str)
        ensures
            text@ == self.spec_message()@,
            *self == KittyError::CountOverflow ==> text@ == "Overflow adding a new person"@,
            *self == KittyError::IdExists ==> text@ == "This new id already exists"@,
    {
        match self {
            KittyError::CountOverflow => "Overflow adding a new person",
            KittyError::IdExists => "This new id already exists",
        }
    }

    /// The message text of each error.
    pub open spec fn spec_message(self) -> &'static str {
        match self {
            KittyError::CountOverflow => "Overflow adding a new person",
            KittyError::IdExists => "This new id already exists",
        }
    }
}

/// The storage of the module, as maps.
pub struct HashedKittiesView {
    /// All kitties, by identifier.
    pub kitties: Map<H256, Kitty>,
    /// The owner of each kitty.
    pub kitty_owner: Map<H256, AccountId>,
    /// The kitty an account created last.
    pub owned_kitty: Map<AccountId, H256>,
    /// The number of kitties created so far, used to derive identifiers.
    pub nonce: u64,
    /// The identifiers of all kitties, in creation order.
    pub all_kitties_array: Map<u64, H256>,
    /// The number of kitties.
    pub all_kitties_count: u64,
    /// The position of each kitty in `all_kitties_array`.
    pub all_kitties_index: Map<H256, u64>,
}

impl HashedKittiesView {
    /// What the module keeps true: the creation list lists exactly the
    /// kittys, each once and at the position the index records; every
    /// kitty's identifier and DNA are its key; a kitty has an owner exactly
    /// when it exists; and the nonce equals the count.
    pub open spec fn wf(self) -> bool {
        &&& self.nonce == self.all_kitties_count
        &&& lists_exactly(self.all_kitties_array, self.all_kitties_count, self.all_kitties_index, self.kitties.dom())
        &&& forall|h: H256| #[trigger] self.kitties.contains_key(h) ==> self.kitties[h].id == h && self.kitties[h].dna == h
        &&& forall|h: H256| #[trigger] self.kitty_owner.contains_key(h) <==> self.kitties.contains_key(h)
    }

    /// The first check that refuses creating a kitty with identifier
    /// `new_id`, if any.
    pub open spec fn create_error(self, new_id: H256) -> Option<KittyError> {
        if self.all_kitties_count == u64::MAX {
            Some(KittyError::CountOverflow)
        } else if self.kitties.contains_key(new_id) {
            Some(KittyError::IdExists)
        } else {
            None
        }
    }

    /// Storage after `sender` creates the kitty `new_id`.
    pub open spec fn create(self, sender: AccountId, new_id: H256) -> HashedKittiesView {
        let count = self.all_kitties_count;
        HashedKittiesView {
            kitties: self.kitties.insert(new_id, Kitty { id: new_id, dna: new_id, price: 0, gen: 0 }),
            kitty_owner: self.kitty_owner.insert(new_id, sender),
            owned_kitty: self.owned_kitty.insert(sender, new_id),
            nonce: (self.nonce + 1) as u64,
            all_kitties_array: self.all_kitties_array.insert(count, new_id),
            all_kitties_count: (count + 1) as u64,
            all_kitties_index: self.all_kitties_index.insert(new_id, count),
        }
    }
}

/// The module: its storage.
pub struct Module {
    kitties: HashIndexed<Kitty>,
    kitty_owner: HashIndexed<AccountId>,
    owned_kitty: BTreeMap<AccountId, H256>,
    nonce: u64,
    all_kitties_array: BTreeMap<u64, H256>,
    all_kitties_count: u64,
    all_kitties_index: HashIndexed<u64>,
}

impl View for Module {
    type V = HashedKittiesView;

    closed spec fn view(&self) -> HashedKittiesView {
        HashedKittiesView {
            kitties: self.kitties@,
            kitty_owner: self.kitty_owner@,
            owned_kitty: self.owned_kitty@,
            nonce: self.nonce,
            all_kitties_array: self.all_kitties_array@,
            all_kitties_count: self.all_kitties_count,
            all_kitties_index: self.all_kitties_index@,
        }
    }
}

impl Module {
    /// Empty storage.
    pub fn new() -> (m: Module)
        ensures
            m@.kitties == Map::<H256, Kitty>::empty(),
            m@.kitty_owner == Map::<H256, AccountId>::empty(),
            m@.owned_kitty == Map::<AccountId, H256>::empty(),
            m@.nonce == 0,
            m@.all_kitties_array == Map::<u64, H256>::empty(),
            m@.all_kitties_count == 0,
            m@.all_kitties_index == Map::<H256, u64>::empty(),
            m@.wf(),
    {
        Module {
            kitties: HashIndexed::new(),
            kitty_owner: HashIndexed::new(),
            owned_kitty: BTreeMap::new(),
            nonce: 0,
            all_kitties_array: BTreeMap::new(),
            all_kitties_count: 0,
            all_kitties_index: HashIndexed::new(),
        }
    }

    /// The kitty `id`, or a zeroed kitty when there is none.
    pub fn kitty(&self, id: &H256) -> (k: Kitty)
        ensures
            self@.kitties.contains_key(*id) ==> k == self@.kitties[*id],
            !self@.kitties.contains_key(*id) ==> is_zero_hash(k.id) && is_zero_hash(k.dna) && k.price == 0 && k.gen == 0,
    {
        match self.kitties.get(id) {
            Some(k) => k,
            None => Kitty { id: [0u8; 32], dna: [0u8; 32], price: 0, gen: 0 },
        }
    }

    /// The owner of kitty `id`, if any.
    pub fn owner_of_kitty(&self, id: &H256) -> (o: Option<AccountId>)
        ensures
            o == (if self@.kitty_owner.contains_key(*id) { Some(self@.kitty_owner[*id]) } else { None::<AccountId> }),
    {
        self.kitty_owner.get(id)
    }

    /// The kitty `owner` created last, or the zero hash.
    pub fn kitty_of_owner(&self, owner: AccountId) -> (h: H256)
        ensures
            self@.owned_kitty.contains_key(owner) ==> h == self@.owned_kitty[owner],
            !self@.owned_kitty.contains_key(owner) ==> is_zero_hash(h),
    {
        match self.owned_kitty.get(&owner) {
            Some(h) => *h,
            None => [0u8; 32],
        }
    }

    /// The identifier of the kitty created at position `index`, or the zero
    /// hash.
    pub fn kitties_array(&self, index: u64) -> (h: H256)
        ensures
            self@.all_kitties_array.contains_key(index) ==> h == self@.all_kitties_array[index],
            !self@.all_kitties_array.contains_key(index) ==> is_zero_hash(h),
    {
        match self.all_kitties_array.get(&index) {
            Some(h) => *h,
            None => [0u8; 32],
        }
    }

    /// The number of kitties.
    pub fn kitties_count(&self) -> (n: u64)
        ensures
            n == self@.all_kitties_count,
    {
        self.all_kitties_count
    }

    /// The nonce that goes into the next identifier's payload.
    pub fn nonce(&self) -> (n: u64)
        ensures
            n == self@.nonce,
    {
        self.nonce
    }

    /// Creates a kitty for `sender` with identifier and DNA `new_id`: the
    /// hash of `nonce_payload` for the sender and the current nonce.
    pub fn create_kitty(&mut self, sender: AccountId, new_id: H256) -> (r: Result<Event, KittyError>)
        requires
            old(self)@.wf(),
        ensures
            final(self)@.wf(),
            old(self)@.create_error(new_id) matches Some(e) ==> r == Err::<Event, KittyError>(e)
                && final(self)@ == old(self)@,
            old(self)@.create_error(new_id) is None ==> r == Ok::<Event, KittyError>(Event::Created(sender, new_id))
                && final(self)@ == old(self)@.create(sender, new_id),
            old(self)@.create_error(new_id) is None ==> {
                let c = old(self)@.all_kitties_count;
                let n = final(self)@;
                &&& n.kitties.contains_key(new_id)
                &&& n.kitties[new_id] == (Kitty { id: new_id, dna: new_id, price: 0, gen: 0 })
                &&& n.kitty_owner.contains_key(new_id) && n.kitty_owner[new_id] == sender
                &&& n.owned_kitty.contains_key(sender) && n.owned_kitty[sender] == new_id
                &&& n.all_kitties_array.contains_key(c) && n.all_kitties_array[c] == new_id
                &&& n.all_kitties_index.contains_key(new_id) && n.all_kitties_index[new_id] == c
                &&& n.all_kitties_count == c + 1
                &&& n.nonce == old(self)@.nonce + 1
            },
    {
        let all_kitties_count = self.all_kitties_count;
        let new_all_kitties_count = match all_kitties_count.checked_add(1) {
            Some(n) => n,
            None => return Err(KittyError::CountOverflow),
        };
        if self.kitties.contains_key(&new_id) {
            return Err(KittyError::IdExists);
        }
        let new_kitty = Kitty { id: new_id, dna: new_id, price: 0, gen: 0 };
        self.kitties.insert(new_id, new_kitty);
        self.kitty_owner.insert(new_id, sender);
        self.all_kitties_array.insert(all_kitties_count, new_id);
        self.all_kitties_count = new_all_kitties_count;
        self.all_kitties_index.insert(new_id, all_kitties_count);
        self.owned_kitty.insert(sender, new_id);
        self.nonce = self.nonce + 1;
        proof {
            let o = old(self)@;
            let n = self@;
            lemma_lists_exactly_append(o.all_kitties_array, o.all_kitties_count, o.all_kitties_index, o.kitties.dom(), new_id);
            assert(n.kitties.dom() =~= o.kitties.dom().insert(new_id));
            assert forall|h: H256| #[trigger] n.kitty_owner.contains_key(h) <==> n.kitties.contains_key(h) by {
                if h != new_id {
                    assert(o.kitty_owner.contains_key(h) <==> o.kitties.contains_key(h));
                }
            }
        }
        Ok(Event::Created(sender, new_id))
    }
}

/// The creation list names every kitty exactly once: at the position its
/// index records, and at no other.
pub proof fn lemma_every_kitty_listed_once(v: HashedKittiesView, h: H256, i: u64)
    requires
        v.wf(),
        v.kitties.contains_key(h),
    ensures
        v.all_kitties_index[h] < v.all_kitties_count,
        v.all_kitties_array[v.all_kitties_index[h]] == h,
        i < v.all_kitties_count && v.all_kitties_array[i] == h ==> i == v.all_kitties_index[h],
{
    lemma_listed_once(v.all_kitties_array, v.all_kitties_count, v.all_kitties_index, v.kitties.dom(), h, i);
}

/// Creating a kitty leaves every existing kitty and its owner as they were.
pub proof fn lemma_create_keeps_existing_kittys(v: HashedKittiesView, sender: AccountId, new_id: H256, h: H256)
    requires
        v.wf(),
        v.create_error(new_id) is None,
        v.kitties.contains_key(h),
    ensures
        v.create(sender, new_id).kitties.contains_key(h),
        v.create(sender, new_id).kitties[h] == v.kitties[h],
        v.create(sender, new_id).kitty_owner[h] == v.kitty_owner[h],
{
    assert(h != new_id);
}

/// Creating a kitty stores it under its identifier with price and
/// generation zero, makes `sender` its owner and `sender`'s latest kitty,
/// lists it at the end of the creation list, and bumps the count and the
/// nonce.
pub proof fn lemma_create_records_kitty(v: HashedKittiesView, sender: AccountId, new_id: H256)
    requires
        v.wf(),
        v.create_error(new_id) is None,
    ensures
        ({
            let c = v.all_kitties_count;
            let n = v.create(sender, new_id);
            &&& n.kitties.contains_key(new_id)
            &&& n.kitties[new_id] == (Kitty { id: new_id, dna: new_id, price: 0, gen: 0 })
            &&& n.kitty_owner.contains_key(new_id) && n.kitty_owner[new_id] == sender
            &&& n.owned_kitty.contains_key(sender) && n.owned_kitty[sender] == new_id
            &&& forall|a: AccountId| a != sender ==> #[trigger] n.owned_kitty.contains_key(a) == v.owned_kitty.contains_key(a)
                && (v.owned_kitty.contains_key(a) ==> n.owned_kitty[a] == v.owned_kitty[a])
            &&& n.all_kitties_array.contains_key(c) && n.all_kitties_array[c] == new_id
            &&& n.all_kitties_index.contains_key(new_id) && n.all_kitties_index[new_id] == c
            &&& n.all_kitties_count == c + 1
            &&& n.nonce == v.nonce + 1
            &&& n.wf()
        }),
{
    lemma_lists_exactly_append(v.all_kitties_array, v.all_kitties_count, v.all_kitties_index, v.kitties.dom(), new_id);
    let n = v.create(sender, new_id);
    assert(n.kitties.dom() =~= v.kitties.dom().insert(new_id));
    assert forall|h: H256| #[trigger] n.kitty_owner.contains_key(h) <==> n.kitties.contains_key(h) by {
        if h != new_id {
            assert(v.kitty_owner.contains_key(h) <==> v.kitties.contains_key(h));
        }
    }
}

} // verus!
