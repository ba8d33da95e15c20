//! A list of items in creation order, kept beside its inverse: the position
//! of each item in the list.

use vstd::prelude::*;
use crate::hash_index::H256;

verus! {

/// `list` holds exactly the positions below `count`, `position` gives each
/// listed item's position, and the listed items are exactly `members`.
pub open spec fn lists_exactly(
    list: Map<u64, H256>,
    count: u64,
    position: Map<H256, u64>,
    members: Set<H256>,
) -> bool {
    &&& forall|i: u64| #[trigger] list.contains_key(i) <==> i < count
    &&& forall|i: u64| #![trigger list[i]] i < count ==> {
        &&& members.contains(list[i])
        &&& position.contains_key(list[i])
        &&& position[list[i]] == i
    }
    &&& forall|h: H256| #[trigger] members.contains(h) ==> {
        &&& position.contains_key(h)
        &&& position[h] < count
        &&& list[position[h]] == h
    }
}

/// Appending a new item at position `count` keeps the list exact.
pub proof fn lemma_lists_exactly_append(
    list: Map<u64, H256>,
    count: u64,
    position: Map<H256, u64>,
    members: Set<H256>,
    new_id: H256,
)
    requires
        lists_exactly(list, count, position, members),
        !members.contains(new_id),
        count < u64::MAX,
    ensures
        lists_exactly(
            list.insert(count, new_id),
            (count + 1) as u64,
            position.insert(new_id, count),
            members.insert(new_id),
        ),
{
    let l = list.insert(count, new_id);
    let p = position.insert(new_id, count);
    let m = members.insert(new_id);
    assert forall|i: u64| #![trigger l[i]] i < count + 1 implies {
        &&& m.contains(l[i])
        &&& p.contains_key(l[i])
        &&& p[l[i]] == i
    } by {
        if i < count {
            assert(members.contains(list[i]));
        }
    }
    assert forall|h: H256| #[trigger] m.contains(h) implies {
        &&& p.contains_key(h)
        &&& p[h] < count + 1
        &&& l[p[h]] == h
    } by {
        if h != new_id {
            assert(members.contains(h));
        }
    }
    assert forall|i: u64| #[trigger] l.contains_key(i) <==> i < count + 1 by {
        if i < count {
            assert(list.contains_key(i));
        }
    }
}

/// Every member is listed exactly once: at its recorded position and at no
/// other.
pub proof fn lemma_listed_once(
    list: Map<u64, H256>,
    count: u64,
    position: Map<H256, u64>,
    members: Set<H256>,
    h: H256,
    i: u64,
)
    requires
        lists_exactly(list, count, position, members),
        members.contains(h),
    ensures
        position[h] < count,
        list[position[h]] == h,
        i < count && list[i] == h ==> i == position[h],
{
    if i < count {
        assert(position[list[i]] == i);
    }
}

} // verus!
