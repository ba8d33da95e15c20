//! Kitties kept as a list per owner, with a total count.

use vstd::prelude::*;
use std::collections::BTreeMap;
use crate::AccountId;
use crate::hash_index::H256;
use vstd::std_specs::iter::IteratorSpec;

verus! {

broadcast use vstd::std_specs::btree::group_btree_axioms, vstd::laws_cmp::group_laws_cmp;

/// The balance type of prices.
pub type Balance = u128;

/// A kitty: its identifier, its DNA (telling kitties apart) and its price.
#[derive(Clone, Copy)]
pub struct Kitty {
    pub id: H256,
    pub dna: H256,
    pub price: Balance,
}

/// Why a call of the module was refused.
#[derive(PartialEq, Eq, Structural, Clone, Copy, Debug)]
pub enum KittyError {
    /// The total count would overflow.
    CountOverflow,
}

impl KittyError {
    /// The module's message for this error.
    pub fn message(&self) -> (text: &'static str)
        ensures
            text@ == "error message"@,
    {
        "error message"
    }
}

/// The total length of the lists in `lists`.
pub open spec fn total_len(lists: Map<AccountId, Seq<Kitty>>) -> nat
    decreases lists.dom().len(),
{
    if !lists.dom().finite() || lists.dom().len() == 0 {
        0
    } else {
        let a = lists.dom().choose();
        lists[a].len() + total_len(lists.remove(a))
    }
}

/// The total length counts any one list plus the others.
proof fn lemma_total_len_split(lists: Map<AccountId, Seq<Kitty>>, a: AccountId)
    requires
        lists.dom().finite(),
        lists.contains_key(a),
    ensures
        total_len(lists) == lists[a].len() + total_len(lists.remove(a)),
    decreases lists.dom().len(),
{
    let c = lists.dom().choose();
    assert(lists.dom().contains(c));
    if c != a {
        lemma_total_len_split(lists.remove(c), a);
        lemma_total_len_split(lists.remove(a), c);
        assert(lists.remove(c).remove(a) =~= lists.remove(a).remove(c));
    }
}

/// Setting the list of `a` to `list` replaces its old length by the new
/// one in the total.
proof fn lemma_total_len_insert(lists: Map<AccountId, Seq<Kitty>>, a: AccountId, list: Seq<Kitty>)
    requires
        lists.dom().finite(),
    ensures
        total_len(lists.insert(a, list)) == list.len() + total_len(lists.remove(a)),
{
    let m = lists.insert(a, list);
    lemma_total_len_split(m, a);
    assert(m.remove(a) =~= lists.remove(a));
}

/// The storage of the module.
pub struct KittyListsView {
    /// The kitties of each account, in the order they were created.
    pub owner_relation_with_kitties: Map<AccountId, Seq<Kitty>>,
    /// The total number of kitties.
    pub kitties_count: u64,
}

impl KittyListsView {
    /// The kitties of `owner` (none when absent).
    pub open spec fn kitties_of(self, owner: AccountId) -> Seq<Kitty> {
        if self.owner_relation_with_kitties.contains_key(owner) {
            self.owner_relation_with_kitties[owner]
        } else {
            Seq::empty()
        }
    }
}

/// The module: its storage.
pub struct Module {
    owner_relation_with_kitties: BTreeMap<AccountId, Vec<Kitty>>,
    kitties_count: u64,
}

impl View for Module {
    type V = KittyListsView;

    closed spec fn view(&self) -> KittyListsView {
        KittyListsView {
            owner_relation_with_kitties: self.owner_relation_with_kitties@.map_values(|v: Vec<Kitty>| v@),
            kitties_count: self.kitties_count,
        }
    }
}

impl Module {
    /// Empty storage.
    pub fn new() -> (m: Module)
        ensures
            m@.owner_relation_with_kitties == Map::<AccountId, Seq<Kitty>>::empty(),
            m@.kitties_count == 0,
            m@.kitties_count == total_len(m@.owner_relation_with_kitties),
    {
        let m = Module { owner_relation_with_kitties: BTreeMap::new(), kitties_count: 0 };
        assert(m@.owner_relation_with_kitties =~= Map::<AccountId, Seq<Kitty>>::empty());
        m
    }

    /// The number of kitties.
    pub fn kitties_count(&self) -> (n: u64)
        ensures
            n == self@.kitties_count,
    {
        self.kitties_count
    }

    /// Appends a kitty with identifier and DNA `random_hash` and price zero
    /// to `sender`'s list, then counts it. When the count would overflow the
    /// kitty stays in the list, the count stays as it was, and the call
    /// fails.
    pub fn create_kitty(&mut self, sender: AccountId, random_hash: H256) -> (r: Result<(), KittyError>)
        ensures
            final(self)@.owner_relation_with_kitties == old(self)@.owner_relation_with_kitties.insert(
                sender,
                old(self)@.kitties_of(sender).push(Kitty { id: random_hash, dna: random_hash, price: 0 }),
            ),
            final(self)@.kitties_of(sender).len() == old(self)@.kitties_of(sender).len() + 1,
            final(self)@.kitties_of(sender).last() == (Kitty { id: random_hash, dna: random_hash, price: 0 }),
            forall|i: int| 0 <= i < old(self)@.kitties_of(sender).len()
                ==> #[trigger] final(self)@.kitties_of(sender)[i] == old(self)@.kitties_of(sender)[i],
            forall|a: AccountId| a != sender ==> #[trigger] final(self)@.kitties_of(a) == old(self)@.kitties_of(a),
            old(self)@.kitties_count == u64::MAX ==> r == Err::<(), KittyError>(KittyError::CountOverflow)
                && final(self)@.kitties_count == old(self)@.kitties_count,
            old(self)@.kitties_count < u64::MAX ==> r == Ok::<(), KittyError>(())
                && final(self)@.kitties_count == old(self)@.kitties_count + 1,
            old(self)@.kitties_count == total_len(old(self)@.owner_relation_with_kitties)
                && old(self)@.kitties_count < u64::MAX
                ==> final(self)@.kitties_count == total_len(final(self)@.owner_relation_with_kitties),
    {
        proof {
            let lists = old(self)@.owner_relation_with_kitties;
            assert(old(self).owner_relation_with_kitties@.dom().finite());
            assert(lists.dom() =~= old(self).owner_relation_with_kitties@.dom());
            lemma_total_len_insert(
                lists,
                sender,
                old(self)@.kitties_of(sender).push(Kitty { id: random_hash, dna: random_hash, price: 0 }),
            );
            if lists.contains_key(sender) {
                lemma_total_len_split(lists, sender);
            } else {
                assert(lists.remove(sender) =~= lists);
            }
        }
        let new_kitty = Kitty { id: random_hash, dna: random_hash, price: 0 };
        let kitties = match self.owner_relation_with_kitties.remove(&sender) {
            Some(mut kitties) => {
                kitties.push(new_kitty);
                kitties
            },
            None => {
                let mut first_kitty = Vec::new();
                first_kitty.push(new_kitty);
                first_kitty
            },
        };
        let ghost kitties_view = kitties@;
        self.owner_relation_with_kitties.insert(sender, kitties);
        assert(self@.owner_relation_with_kitties =~= old(self)@.owner_relation_with_kitties.insert(
            sender,
            kitties_view,
        ));
        assert(kitties_view =~= old(self)@.kitties_of(sender).push(new_kitty));
        let kitties_count = self.kitties_count;
        let new_kitties_count = match kitties_count.checked_add(1) {
            Some(n) => n,
            None => return Err(KittyError::CountOverflow),
        };
        self.kitties_count = new_kitties_count;
        Ok(())
    }

    /// The kitties of `owner`, in the order they were created.
    pub fn owner_relation_with_kitties(&self, owner: AccountId) -> (kitties: Vec<Kitty>)
        ensures
            kitties@ == self@.kitties_of(owner),
    {
        let mut kitties: Vec<Kitty> = Vec::new();
        match self.owner_relation_with_kitties.get(&owner) {
            Some(list) => {
                for i in 0..list.len()
                    invariant
                        kitties@ == list@.take(i as int),
                {
                    kitties.push(list[i]);
                    assert(list@.take(i + 1) =~= list@.take(i as int).push(list@[i as int]));
                }
                assert(list@.take(list@.len() as int) =~= list@);
            },
            None => {},
        }
        kitties
    }

    /// The total number of kitties and the number of `sender`'s kitties.
    pub fn get_kitty_count(&self, sender: AccountId) -> (counts: (u64, usize))
        ensures
            counts.0 == self@.kitties_count,
            counts.1 == self@.kitties_of(sender).len(),
    {
        let user_count = match self.owner_relation_with_kitties.get(&sender) {
            Some(kitties) => kitties.len(),
            None => 0,
        };
        (self.kitties_count, user_count)
    }
    /// Each account with a list, once, with the length of its list.
    pub fn owner_kitty_counts(&self) -> (counts: Vec<(AccountId, usize)>)
        ensures
            forall|i: int| #![trigger counts@[i]] 0 <= i < counts@.len() ==> {
                &&& self@.owner_relation_with_kitties.contains_key(counts@[i].0)
                &&& counts@[i].1 == self@.owner_relation_with_kitties[counts@[i].0].len()
            },
            forall|a: AccountId| #[trigger] self@.owner_relation_with_kitties.contains_key(a)
                ==> exists|i: int| 0 <= i < counts@.len() && counts@[i].0 == a,
            forall|i: int, j: int| 0 <= i < j < counts@.len() ==> counts@[i].0 != counts@[j].0,
    {
        let mut counts: Vec<(AccountId, usize)> = Vec::new();
        let keys = self.owner_relation_with_kitties.keys();
        let ghost key_seq = keys.remaining().unref();
        proof {
            assert(key_seq.to_set() == self.owner_relation_with_kitties@.dom());
            assert(key_seq.no_duplicates());
        }
        for owner in it: keys
            invariant
                key_seq == it.seq().unref(),
                key_seq.to_set() == self.owner_relation_with_kitties@.dom(),
                key_seq.no_duplicates(),
                counts@.len() == it.index(),
                it.index() <= key_seq.len(),
                forall|i: int| #![trigger counts@[i]] 0 <= i < counts@.len() ==> {
                    &&& counts@[i].0 == key_seq[i]
                    &&& self@.owner_relation_with_kitties.contains_key(counts@[i].0)
                    &&& counts@[i].1 == self@.owner_relation_with_kitties[counts@[i].0].len()
                },
        {
            let n = match self.owner_relation_with_kitties.get(owner) {
                Some(kitties) => kitties.len(),
                None => 0,
            };
            counts.push((*owner, n));
        }
        proof {
            assert(counts@.len() == key_seq.len());
            assert forall|a: AccountId| #[trigger] self@.owner_relation_with_kitties.contains_key(a)
                implies exists|i: int| 0 <= i < counts@.len() && counts@[i].0 == a by {
                assert(key_seq.to_set().contains(a));
                let i = key_seq.index_of(a);
                assert(counts@[i].0 == a);
            }
        }
        counts
    }
}

} // verus!
