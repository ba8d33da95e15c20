//! The avalon module: a few stored values set by their callers, and gundams
//! identified by a hash, with a list of all gundams in creation order.

use vstd::prelude::*;
use std::collections::BTreeMap;
use crate::AccountId;
use crate::creation_list::{lemma_listed_once, lemma_lists_exactly_append, lists_exactly};
use crate::hash_index::{H256, HashIndexed, is_zero_hash};

verus! {

broadcast use vstd::std_specs::btree::group_btree_axioms, vstd::laws_cmp::group_laws_cmp;

/// The balance type of prices.
pub type Balance = u128;

/// A gundam: its identifier, its DNA (equal to its identifier when
/// created), its price and its generation.
#[derive(Clone, Copy)]
pub struct Gundam {
    pub id: H256,
    pub dna: H256,
    pub price: Balance,
    pub gen: u64,
}

/// What the module announces.
#[derive(Clone, Copy, Debug)]
pub enum Event {
    /// `AccountId` created the gundam `H256`.
    Created(AccountId, H256),
    /// The flag was set by the account.
    SomeBoolStored(bool, AccountId),
    /// A number was stored by the account.
    SomeU32Stored(u32, AccountId),
}

/// Why a call of the module was refused.
#[derive(PartialEq, Eq, Structural, Clone, Copy, Debug)]
pub enum GundamError {
    /// The count of all gundams would overflow.
    CountOverflow,
    /// A gundam with the new identifier has an owner.
    GundamExists,
}

impl GundamError {
    /// The module's message for this error.
    pub fn message(&self) -> (text: &'static str)
        ensures
            text@ == self.spec_message()@,
            *self == GundamError::CountOverflow ==> text@ == "Overflow adding a new gundam to total supply"@,
            *self == GundamError::GundamExists ==> text@ == "Gundam already exists"@,
    {
        match self {
            GundamError::CountOverflow => "Overflow adding a new gundam to total supply",
            GundamError::GundamExists => "Gundam already exists",
        }
    }

    /// The message text of each error.
    pub open spec fn spec_message(self) -> &'static str {
        match self {
            GundamError::CountOverflow => "Overflow adding a new gundam to total supply",
            GundamError::GundamExists => "Gundam already exists",
        }
    }
}

/// The storage of the module, as maps.
pub struct AvalonView {
    /// A number stored by `do_something`.
    pub something: Option<u32>,
    /// A number stored by `do_avu32`.
    pub av_u32: Option<u32>,
    /// A flag stored by `do_avbool`.
    pub av_bool: Option<bool>,
    /// A number stored by each account with `do_mapu32`.
    pub acc_value: Map<AccountId, u32>,
    /// All gundams, by identifier.
    pub gundams: Map<H256, Gundam>,
    /// The owner of each gundam.
    pub gundam_owner: Map<H256, AccountId>,
    /// The identifiers of all gundams, in creation order.
    pub all_gundams_array: Map<u64, H256>,
    /// The number of gundams.
    pub all_gundams_count: u64,
    /// The position of each gundam in `all_gundams_array`.
    pub all_gundams_index: Map<H256, u64>,
    /// The gundam an account created last.
    pub owned_gundam: Map<AccountId, H256>,
    /// The number of gundams created so far, used to derive identifiers.
    pub nonce: u64,
}

impl AvalonView {
    /// What the module keeps true: the creation list lists exactly the
    /// gundams, each once and at the position the index records; every
    /// gundam's identifier and DNA are its key; a gundam has an owner exactly
    /// when it exists; and the nonce equals the count.
    pub open spec fn wf(self) -> bool {
        &&& self.nonce == self.all_gundams_count
        &&& lists_exactly(self.all_gundams_array, self.all_gundams_count, self.all_gundams_index, self.gundams.dom())
        &&& forall|h: H256| #[trigger] self.gundams.contains_key(h) ==> self.gundams[h].id == h && self.gundams[h].dna == h
        &&& forall|h: H256| #[trigger] self.gundam_owner.contains_key(h) <==> self.gundams.contains_key(h)
    }

    /// The first check that refuses creating a gundam with identifier
    /// `random_hash`, if any.
    pub open spec fn create_error(self, random_hash: H256) -> Option<GundamError> {
        if self.all_gundams_count == u64::MAX {
            Some(GundamError::CountOverflow)
        } else if self.gundam_owner.contains_key(random_hash) {
            Some(GundamError::GundamExists)
        } else {
            None
        }
    }

    /// Storage after `sender` creates the gundam `random_hash`.
    pub open spec fn create(self, sender: AccountId, random_hash: H256) -> AvalonView {
        let count = self.all_gundams_count;
        AvalonView {
            gundams: self.gundams.insert(random_hash, Gundam { id: random_hash, dna: random_hash, price: 0, gen: 0 }),
            gundam_owner: self.gundam_owner.insert(random_hash, sender),
            all_gundams_array: self.all_gundams_array.insert(count, random_hash),
            all_gundams_count: (count + 1) as u64,
            all_gundams_index: self.all_gundams_index.insert(random_hash, count),
            owned_gundam: self.owned_gundam.insert(sender, random_hash),
            nonce: (self.nonce + 1) as u64,
            ..self
        }
    }
}

/// The module: its storage.
pub struct Module {
    something: Option<u32>,
    av_u32: Option<u32>,
    av_bool: Option<bool>,
    acc_value: BTreeMap<AccountId, u32>,
    gundams: HashIndexed<Gundam>,
    gundam_owner: HashIndexed<AccountId>,
    all_gundams_array: BTreeMap<u64, H256>,
    all_gundams_count: u64,
    all_gundams_index: HashIndexed<u64>,
    owned_gundam: BTreeMap<AccountId, H256>,
    nonce: u64,
}

impl View for Module {
    type V = AvalonView;

    closed spec fn view(&self) -> AvalonView {
        AvalonView {
            something: self.something,
            av_u32: self.av_u32,
            av_bool: self.av_bool,
            acc_value: self.acc_value@,
            gundams: self.gundams@,
            gundam_owner: self.gundam_owner@,
            all_gundams_array: self.all_gundams_array@,
            all_gundams_count: self.all_gundams_count,
            all_gundams_index: self.all_gundams_index@,
            owned_gundam: self.owned_gundam@,
            nonce: self.nonce,
        }
    }
}

impl Module {
    /// Empty storage.
    pub fn new() -> (m: Module)
        ensures
            m@.something is None,
            m@.av_u32 is None,
            m@.av_bool is None,
            m@.acc_value == Map::<AccountId, u32>::empty(),
            m@.gundams == Map::<H256, Gundam>::empty(),
            m@.gundam_owner == Map::<H256, AccountId>::empty(),
            m@.all_gundams_array == Map::<u64, H256>::empty(),
            m@.all_gundams_count == 0,
            m@.all_gundams_index == Map::<H256, u64>::empty(),
            m@.owned_gundam == Map::<AccountId, H256>::empty(),
            m@.nonce == 0,
            m@.wf(),
    {
        Module {
            something: None,
            av_u32: None,
            av_bool: None,
            acc_value: BTreeMap::new(),
            gundams: HashIndexed::new(),
            gundam_owner: HashIndexed::new(),
            all_gundams_array: BTreeMap::new(),
            all_gundams_count: 0,
            all_gundams_index: HashIndexed::new(),
            owned_gundam: BTreeMap::new(),
            nonce: 0,
        }
    }

    /// The number stored by `do_something`.
    pub fn something(&self) -> (v: Option<u32>)
        ensures
            v == self@.something,
    {
        self.something
    }

    /// The number stored by `do_avu32`.
    pub fn avu32(&self) -> (v: Option<u32>)
        ensures
            v == self@.av_u32,
    {
        self.av_u32
    }

    /// The flag stored by `do_avbool`.
    pub fn my_bool_getter(&self) -> (v: Option<bool>)
        ensures
            v == self@.av_bool,
    {
        self.av_bool
    }

    /// The number stored by `who`, if any.
    pub fn acc_bal(&self, who: AccountId) -> (v: Option<u32>)
        ensures
            v == (if self@.acc_value.contains_key(who) { Some(self@.acc_value[who]) } else { None::<u32> }),
    {
        match self.acc_value.get(&who) {
            Some(v) => Some(*v),
            None => None,
        }
    }

    /// The gundam `id`, or a zeroed gundam when there is none.
    pub fn gundam(&self, id: &H256) -> (g: Gundam)
        ensures
            self@.gundams.contains_key(*id) ==> g == self@.gundams[*id],
            !self@.gundams.contains_key(*id) ==> is_zero_hash(g.id) && is_zero_hash(g.dna) && g.price == 0 && g.gen == 0,
    {
        match self.gundams.get(id) {
            Some(g) => g,
            None => Gundam { id: [0u8; 32], dna: [0u8; 32], price: 0, gen: 0 },
        }
    }

    /// The owner of gundam `id`, if any.
    pub fn owner_of(&self, id: &H256) -> (o: Option<AccountId>)
        ensures
            o == (if self@.gundam_owner.contains_key(*id) { Some(self@.gundam_owner[*id]) } else { None::<AccountId> }),
    {
        self.gundam_owner.get(id)
    }

    /// The identifier of the gundam created at position `index`, or the
    /// zero hash.
    pub fn gundam_by_index(&self, index: u64) -> (h: H256)
        ensures
            self@.all_gundams_array.contains_key(index) ==> h == self@.all_gundams_array[index],
            !self@.all_gundams_array.contains_key(index) ==> is_zero_hash(h),
    {
        match self.all_gundams_array.get(&index) {
            Some(h) => *h,
            None => [0u8; 32],
        }
    }

    /// The number of gundams.
    pub fn all_gundams_count(&self) -> (n: u64)
        ensures
            n == self@.all_gundams_count,
    {
        self.all_gundams_count
    }

    /// The gundam `owner` created last, or the zero hash.
    pub fn gundam_of_owner(&self, owner: AccountId) -> (h: H256)
        ensures
            self@.owned_gundam.contains_key(owner) ==> h == self@.owned_gundam[owner],
            !self@.owned_gundam.contains_key(owner) ==> is_zero_hash(h),
    {
        match self.owned_gundam.get(&owner) {
            Some(h) => *h,
            None => [0u8; 32],
        }
    }

    /// The nonce that goes into the next identifier's payload.
    pub fn nonce(&self) -> (n: u64)
        ensures
            n == self@.nonce,
    {
        self.nonce
    }

    /// Stores `something` for `who`.
    pub fn do_something(&mut self, who: AccountId, something: u32) -> (e: Event)
        ensures
            final(self)@ == (AvalonView { something: Some(something), ..old(self)@ }),
            e == Event::SomeU32Stored(something, who),
    {
        self.something = Some(something);
        Event::SomeU32Stored(something, who)
    }

    /// Stores the flag `input_bool` for `who`.
    pub fn do_avbool(&mut self, who: AccountId, input_bool: bool) -> (e: Event)
        ensures
            final(self)@ == (AvalonView { av_bool: Some(input_bool), ..old(self)@ }),
            e == Event::SomeBoolStored(input_bool, who),
    {
        self.av_bool = Some(input_bool);
        Event::SomeBoolStored(input_bool, who)
    }

    /// Stores `input_u32` for `who`.
    pub fn do_avu32(&mut self, who: AccountId, input_u32: u32) -> (e: Event)
        ensures
            final(self)@ == (AvalonView { av_u32: Some(input_u32), ..old(self)@ }),
            e == Event::SomeU32Stored(input_u32, who),
    {
        self.av_u32 = Some(input_u32);
        Event::SomeU32Stored(input_u32, who)
    }

    /// Stores `input_value` as `who`'s number.
    pub fn do_mapu32(&mut self, who: AccountId, input_value: u32)
        ensures
            final(self)@ == (AvalonView { acc_value: old(self)@.acc_value.insert(who, input_value), ..old(self)@ }),
    {
        self.acc_value.insert(who, input_value);
    }

    /// Creates a gundam for `sender` with identifier and DNA `random_hash`:
    /// the hash of `nonce_payload` for the sender and the current nonce.
    pub fn create_gundam(&mut self, sender: AccountId, random_hash: H256) -> (r: Result<Event, GundamError>)
        requires
            old(self)@.wf(),
        ensures
            final(self)@.wf(),
            old(self)@.create_error(random_hash) matches Some(e) ==> r == Err::<Event, GundamError>(e)
                && final(self)@ == old(self)@,
            old(self)@.create_error(random_hash) is None ==> r == Ok::<Event, GundamError>(Event::Created(sender, random_hash))
                && final(self)@ == old(self)@.create(sender, random_hash),
            old(self)@.create_error(random_hash) is None ==> {
                let c = old(self)@.all_gundams_count;
                let n = final(self)@;
                &&& n.gundams.contains_key(random_hash)
                &&& n.gundams[random_hash] == (Gundam { id: random_hash, dna: random_hash, price: 0, gen: 0 })
                &&& n.gundam_owner.contains_key(random_hash) && n.gundam_owner[random_hash] == sender
                &&& n.owned_gundam.contains_key(sender) && n.owned_gundam[sender] == random_hash
                &&& n.all_gundams_array.contains_key(c) && n.all_gundams_array[c] == random_hash
                &&& n.all_gundams_index.contains_key(random_hash) && n.all_gundams_index[random_hash] == c
                &&& n.all_gundams_count == c + 1
                &&& n.nonce == old(self)@.nonce + 1
            },
    {
        let all_gundams_count = self.all_gundams_count;
        let new_all_gundams_count = match all_gundams_count.checked_add(1) {
            Some(n) => n,
            None => return Err(GundamError::CountOverflow),
        };
        if self.gundam_owner.contains_key(&random_hash) {
            return Err(GundamError::GundamExists);
        }
        let zaku = Gundam { id: random_hash, dna: random_hash, price: 0, gen: 0 };
        self.gundams.insert(random_hash, zaku);
        self.gundam_owner.insert(random_hash, sender);
        self.all_gundams_array.insert(all_gundams_count, random_hash);
        self.all_gundams_count = new_all_gundams_count;
        self.all_gundams_index.insert(random_hash, all_gundams_count);
        self.owned_gundam.insert(sender, random_hash);
        self.nonce = self.nonce + 1;
        proof {
            let o = old(self)@;
            let n = self@;
            lemma_lists_exactly_append(o.all_gundams_array, o.all_gundams_count, o.all_gundams_index, o.gundams.dom(), random_hash);
            assert(n.gundams.dom() =~= o.gundams.dom().insert(random_hash));
            assert forall|h: H256| #[trigger] n.gundam_owner.contains_key(h) <==> n.gundams.contains_key(h) by {
                if h != random_hash {
                    assert(o.gundam_owner.contains_key(h) <==> o.gundams.contains_key(h));
                }
            }
        }
        Ok(Event::Created(sender, random_hash))
    }
}

/// The creation list names every gundam exactly once: at the position its
/// index records, and at no other.
pub proof fn lemma_every_gundam_listed_once(v: AvalonView, h: H256, i: u64)
    requires
        v.wf(),
        v.gundams.contains_key(h),
    ensures
        v.all_gundams_index[h] < v.all_gundams_count,
        v.all_gundams_array[v.all_gundams_index[h]] == h,
        i < v.all_gundams_count && v.all_gundams_array[i] == h ==> i == v.all_gundams_index[h],
{
    lemma_listed_once(v.all_gundams_array, v.all_gundams_count, v.all_gundams_index, v.gundams.dom(), h, i);
}

/// Creating a gundam leaves every existing gundam and its owner as they were.
pub proof fn lemma_create_keeps_existing_gundams(v: AvalonView, sender: AccountId, new_id: H256, h: H256)
    requires
        v.wf(),
        v.create_error(new_id) is None,
        v.gundams.contains_key(h),
    ensures
        v.create(sender, new_id).gundams.contains_key(h),
        v.create(sender, new_id).gundams[h] == v.gundams[h],
        v.create(sender, new_id).gundam_owner[h] == v.gundam_owner[h],
{
    assert(h != new_id);
}

/// Creating a gundam stores it under its identifier with price and
/// generation zero, makes `sender` its owner and `sender`'s latest gundam,
/// lists it at the end of the creation list, and bumps the count and the
/// nonce.
pub proof fn lemma_create_records_gundam(v: AvalonView, sender: AccountId, new_id: H256)
    requires
        v.wf(),
        v.create_error(new_id) is None,
    ensures
        ({
            let c = v.all_gundams_count;
            let n = v.create(sender, new_id);
            &&& n.gundams.contains_key(new_id)
            &&& n.gundams[new_id] == (Gundam { id: new_id, dna: new_id, price: 0, gen: 0 })
            &&& n.gundam_owner.contains_key(new_id) && n.gundam_owner[new_id] == sender
            &&& n.owned_gundam.contains_key(sender) && n.owned_gundam[sender] == new_id
            &&& forall|a: AccountId| a != sender ==> #[trigger] n.owned_gundam.contains_key(a) == v.owned_gundam.contains_key(a)
                && (v.owned_gundam.contains_key(a) ==> n.owned_gundam[a] == v.owned_gundam[a])
            &&& n.all_gundams_array.contains_key(c) && n.all_gundams_array[c] == new_id
            &&& n.all_gundams_index.contains_key(new_id) && n.all_gundams_index[new_id] == c
            &&& n.all_gundams_count == c + 1
            &&& n.nonce == v.nonce + 1
            &&& n.wf()
        }),
{
    lemma_lists_exactly_append(v.all_gundams_array, v.all_gundams_count, v.all_gundams_index, v.gundams.dom(), new_id);
    let n = v.create(sender, new_id);
    assert(n.gundams.dom() =~= v.gundams.dom().insert(new_id));
    assert forall|h: H256| #[trigger] n.gundam_owner.contains_key(h) <==> n.gundams.contains_key(h) by {
        if h != new_id {
            assert(v.gundam_owner.contains_key(h) <==> v.gundams.contains_key(h));
        }
    }
}

} // verus!
