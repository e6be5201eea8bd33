//! Pools by name.

use vstd::prelude::*;

use crate::model::{pool_views, PoolSnapshot, PoolView};
use crate::text::{
    in_order, law_text_order_is_transitive, law_texts_are_totally_ordered, ordered,
};

verus! {

pub open spec fn sorted_by_name(pools: Seq<PoolView>) -> bool {
    forall|i: int, j: int|
        0 <= i < j < pools.len() ==> ordered((#[trigger] pools[i]).name, (#[trigger] pools[j]).name)
}

/// The pools with a certain name, in their order.
pub open spec fn named(pools: Seq<PoolView>, name: Seq<char>) -> Seq<PoolView> {
    pools.filter(|pool: PoolView| pool.name == name)
}

/// `pools` holds what `listed` holds, by name, and pools of one name in the
/// order that they have in `listed`.
pub open spec fn arranged_by_name(pools: Seq<PoolView>, listed: Seq<PoolView>) -> bool {
    &&& sorted_by_name(pools)
    &&& forall|name: Seq<char>| #[trigger] named(pools, name) == named(listed, name)
}

/// A pool that is put in behind all that come before it, or have its name, and
/// before all others keeps an arrangement.
proof fn lemma_insert_keeps_arrangement(
    pools: Seq<PoolView>,
    listed: Seq<PoolView>,
    pool: PoolView,
    slot: int,
)
    requires
        arranged_by_name(pools, listed),
        0 <= slot <= pools.len(),
        slot > 0 ==> ordered(pools[slot - 1].name, pool.name),
        slot < pools.len() ==> !ordered(pools[slot].name, pool.name),
    ensures
        arranged_by_name(pools.insert(slot, pool), listed.push(pool)),
{
    let grown = pools.insert(slot, pool);
    assert forall|i: int| 0 <= i < slot implies ordered(
        (#[trigger] pools[i]).name,
        pool.name,
    ) by {
        if i < slot - 1 {
            law_text_order_is_transitive(pools[i].name, pools[slot - 1].name, pool.name);
        }
    }
    assert forall|i: int| slot <= i < pools.len() implies !ordered(
        (#[trigger] pools[i]).name,
        pool.name,
    ) && ordered(pool.name, pools[i].name) by {
        if slot < i && ordered(pools[i].name, pool.name) {
            law_text_order_is_transitive(pools[slot].name, pools[i].name, pool.name);
        }
        law_texts_are_totally_ordered(pool.name, pools[i].name);
    }
    assert forall|i: int, j: int| 0 <= i < j < grown.len() implies ordered(
        (#[trigger] grown[i]).name,
        (#[trigger] grown[j]).name,
    ) by {
        let left = if i < slot { i } else { i - 1 };
        let right = if j < slot { j } else { j - 1 };
        if i != slot {
            assert(grown[i] == pools[left]);
        }
        if j != slot {
            assert(grown[j] == pools[right]);
        }
    }
    assert forall|name: Seq<char>| #[trigger] named(grown, name) == named(
        listed.push(pool),
        name,
    ) by {
        let has_name = |p: PoolView| p.name == name;
        let head = pools.take(slot);
        let tail = pools.skip(slot);
        assert(named(pools, name) == named(listed, name));
        assert(pools =~= head + tail);
        assert(grown =~= head + seq![pool] + tail);
        Seq::filter_distributes_over_add(head, tail, has_name);
        Seq::filter_distributes_over_add(head + seq![pool], tail, has_name);
        Seq::filter_distributes_over_add(head, seq![pool], has_name);
        Seq::filter_distributes_over_add(listed, seq![pool], has_name);
        assert(listed.push(pool) =~= listed + seq![pool]);
        reveal_with_fuel(Seq::filter, 2);
        if pool.name == name {
            lemma_nothing_named(tail, name);
            assert(seq![pool].filter(has_name) =~= seq![pool]);
        } else {
            assert(seq![pool].filter(has_name) =~= Seq::<PoolView>::empty());
        }
        assert(grown.filter(has_name) =~= listed.push(pool).filter(has_name));
    }
}

proof fn lemma_nothing_named(pools: Seq<PoolView>, name: Seq<char>)
    requires
        forall|i: int| 0 <= i < pools.len() ==> (#[trigger] pools[i]).name != name,
    ensures
        named(pools, name) == Seq::<PoolView>::empty(),
    decreases pools.len(),
{
    reveal(Seq::filter);
    if pools.len() > 0 {
        assert forall|i: int| 0 <= i < pools.drop_last().len() implies (
        #[trigger] pools.drop_last()[i]).name != name by {
            assert(pools[i].name != name);
        }
        lemma_nothing_named(pools.drop_last(), name);
        assert(pools.last() == pools[pools.len() - 1]);
    }
}

/// Puts a pool in its place by name.
pub(crate) fn insert_by_name(
    pools: &mut Vec<PoolSnapshot>,
    pool: PoolSnapshot,
) -> (slot: usize)
    ensures
        slot <= old(pools)@.len(),
        final(pools)@ == old(pools)@.insert(slot as int, pool),
        forall|listed: Seq<PoolView>|
            arranged_by_name(pool_views(old(pools)@), listed)
                ==> #[trigger] arranged_by_name(
                pool_views(final(pools)@),
                listed.push(pool@),
            ),
{
    let ghost views = pool_views(pools@);
    let mut slot: usize = pools.len();
    while slot > 0 && !in_order(pools[slot - 1].name.as_str(), pool.name.as_str())
        invariant
            slot <= pools@.len(),
            slot < pools@.len() ==> !ordered(pools@[slot as int].name@, pool.name@),
        decreases slot,
    {
        slot -= 1;
    }
    proof {
        assert forall|listed: Seq<PoolView>|
            arranged_by_name(views, listed) implies #[trigger] arranged_by_name(
            views.insert(slot as int, pool@),
            listed.push(pool@),
        ) by {
            lemma_insert_keeps_arrangement(views, listed, pool@, slot as int);
        }
    }
    pools.insert(slot, pool);
    assert(pool_views(pools@) =~= views.insert(slot as int, pool@));
    slot
}

/// Two arrangements of the same pools are the same: there is one order by name
/// that keeps pools of one name in their order.
pub proof fn law_arrangement_is_unique(
    left: Seq<PoolView>,
    right: Seq<PoolView>,
    listed: Seq<PoolView>,
)
    requires
        arranged_by_name(left, listed),
        arranged_by_name(right, listed),
    ensures
        left == right,
    decreases left.len() + right.len(),
{
    assert forall|name: Seq<char>| #[trigger] named(left, name) == named(right, name) by {
        assert(named(left, name) == named(listed, name));
        assert(named(right, name) == named(listed, name));
    }
    lemma_same_names_same_order(left, right);
}

proof fn lemma_same_names_same_order(left: Seq<PoolView>, right: Seq<PoolView>)
    requires
        sorted_by_name(left),
        sorted_by_name(right),
        forall|name: Seq<char>| #[trigger] named(left, name) == named(right, name),
    ensures
        left == right,
    decreases left.len(),
{
    reveal(Seq::filter);
    if left.len() == 0 {
        if right.len() > 0 {
            let name = right.last().name;
            assert(named(left, name) == named(right, name));
            assert(named(right, name).len() > 0);
        }
    } else {
        let name = left.last().name;
        assert(named(left, name) == named(right, name));
        assert(named(left, name).last() == left.last());
        if right.len() == 0 {
            assert(named(right, name).len() == 0);
        }
        lemma_named_is_inside(right, name);
        let other = right.last().name;
        assert(named(left, other) == named(right, other));
        assert(named(right, other).last() == right.last());
        lemma_named_is_inside(left, other);
        let i = choose|i: int| 0 <= i < right.len() && (#[trigger] right[i]).name == name;
        let j = choose|j: int| 0 <= j < left.len() && (#[trigger] left[j]).name == other;
        law_texts_are_totally_ordered(name, other);
        law_texts_are_totally_ordered(other, other);
        if i < right.len() - 1 {
            assert(ordered(right[i].name, right[right.len() - 1].name));
        }
        if j < left.len() - 1 {
            assert(ordered(left[j].name, left[left.len() - 1].name));
        }
        assert(name == other);
        let shorter_left = left.drop_last();
        let shorter_right = right.drop_last();
        assert forall|n: Seq<char>| #[trigger] named(shorter_left, n) == named(
            shorter_right,
            n,
        ) by {
            assert(named(left, n) == named(right, n));
            if n == name {
                assert(named(left, n).drop_last() =~= named(shorter_left, n));
                assert(named(right, n).drop_last() =~= named(shorter_right, n));
            }
        }
        assert forall|a: int, b: int| 0 <= a < b < shorter_left.len() implies ordered(
            (#[trigger] shorter_left[a]).name,
            (#[trigger] shorter_left[b]).name,
        ) by {
            assert(ordered(left[a].name, left[b].name));
        }
        assert forall|a: int, b: int| 0 <= a < b < shorter_right.len() implies ordered(
            (#[trigger] shorter_right[a]).name,
            (#[trigger] shorter_right[b]).name,
        ) by {
            assert(ordered(right[a].name, right[b].name));
        }
        lemma_same_names_same_order(shorter_left, shorter_right);
        assert(left =~= shorter_left.push(left.last()));
        assert(right =~= shorter_right.push(right.last()));
    }
}

/// A name that a list of pools has stands on one of them.
proof fn lemma_named_is_inside(pools: Seq<PoolView>, name: Seq<char>)
    requires
        named(pools, name).len() > 0,
    ensures
        exists|i: int| 0 <= i < pools.len() && (#[trigger] pools[i]).name == name,
{
    if forall|i: int| 0 <= i < pools.len() ==> (#[trigger] pools[i]).name != name {
        lemma_nothing_named(pools, name);
    }
}

/// An arrangement holds every pool as often as it was listed, and stands in the
/// order of the names.
pub proof fn law_arrangement_keeps_every_pool(pools: Seq<PoolView>, listed: Seq<PoolView>)
    requires
        arranged_by_name(pools, listed),
    ensures
        pools.len() == listed.len(),
        pools.to_multiset() == listed.to_multiset(),
        forall|i: int, j: int|
            0 <= i < j < pools.len() ==> ordered(
                (#[trigger] pools[i]).name,
                (#[trigger] pools[j]).name,
            ),
{
    assert forall|pool: PoolView| #[trigger]
        pools.to_multiset().count(pool) == listed.to_multiset().count(pool) by {
        lemma_named_keeps_count(pools, pool);
        lemma_named_keeps_count(listed, pool);
        assert(named(pools, pool.name) == named(listed, pool.name));
    }
    assert(pools.to_multiset() =~= listed.to_multiset());
    broadcast use vstd::seq_lib::group_to_multiset_ensures;

    assert(pools.len() == pools.to_multiset().len());
    assert(listed.len() == listed.to_multiset().len());
}

proof fn lemma_named_keeps_count(pools: Seq<PoolView>, pool: PoolView)
    ensures
        named(pools, pool.name).to_multiset().count(pool) == pools.to_multiset().count(pool),
    decreases pools.len(),
{
    broadcast use vstd::seq_lib::group_to_multiset_ensures;
    broadcast use vstd::multiset::group_multiset_axioms;

    reveal(Seq::filter);
    if pools.len() > 0 {
        let rest = pools.drop_last();
        lemma_named_keeps_count(rest, pool);
        assert(pools =~= rest.push(pools.last()));
        assert(pools.to_multiset() == rest.to_multiset().insert(pools.last()));
        if pools.last().name == pool.name {
            assert(named(pools, pool.name) == named(rest, pool.name).push(pools.last()));
        } else {
            assert(named(pools, pool.name) == named(rest, pool.name));
        }
    }
}

/// Pools of one name keep the order in which they were listed, each as it is,
/// and a pool of another name is not among them.
pub proof fn law_pools_of_one_name_are_collected_in_order(
    listed: Seq<PoolView>,
    pool: PoolView,
    name: Seq<char>,
)
    ensures
        named(Seq::<PoolView>::empty(), name) == Seq::<PoolView>::empty(),
        pool.name == name ==> named(listed.push(pool), name) == named(listed, name).push(pool),
        pool.name != name ==> named(listed.push(pool), name) == named(listed, name),
{
    reveal(Seq::filter);
    assert(listed.push(pool).drop_last() =~= listed);
}

/// Pools of one name stand in an arrangement in the order in which they were
/// listed.
pub proof fn law_pools_of_one_name_keep_their_order(
    pools: Seq<PoolView>,
    listed: Seq<PoolView>,
    name: Seq<char>,
)
    requires
        arranged_by_name(pools, listed),
    ensures
        pools.filter(|pool: PoolView| pool.name == name) == listed.filter(
            |pool: PoolView| pool.name == name,
        ),
{
    assert(named(pools, name) == named(listed, name));
}

} // verus!
