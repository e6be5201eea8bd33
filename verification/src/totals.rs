//! Adding up the rates of all pools.

use vstd::prelude::*;

use crate::clock::Instant;
use crate::model::{pool_views, PoolSnapshot, PoolView};
use crate::pools::{of_one_moment, rate_since, rates_since, Memory};
use crate::quantity::{lemma_zero_value, Quantity, NANOS_PER_SECOND};

verus! {

/// The read rates of a list of pools.
pub open spec fn read_rates(pools: Seq<PoolView>) -> Seq<Quantity> {
    pools.map_values(|pool: PoolView| pool.read_bytes_per_sec)
}

/// The write rates of a list of pools.
pub open spec fn write_rates(pools: Seq<PoolView>) -> Seq<Quantity> {
    pools.map_values(|pool: PoolView| pool.write_bytes_per_sec)
}

/// Rates over one and the same span of time, or nothing at all, of counters
/// that have 64 bits.
pub open spec fn same_span(rates: Seq<Quantity>) -> bool {
    &&& forall|i: int|
        0 <= i < rates.len() ==> match #[trigger] rates[i] {
            Quantity::Zero => true,
            Quantity::Share { .. } | Quantity::Fraction { .. } => false,
            Quantity::PerSecond { count, elapsed } => count <= u64::MAX && elapsed.nanos > 0,
        }
    &&& forall|i: int, j: int|
        0 <= i < rates.len() && 0 <= j < rates.len() && #[trigger] rates[i] is PerSecond
            && #[trigger] rates[j] is PerSecond ==> rates[i]->elapsed == rates[j]->elapsed
}

/// The sum of two rates over one span of time.
pub open spec fn plus(left: Quantity, right: Quantity) -> Quantity {
    match (left, right) {
        (
            Quantity::PerSecond { count: left_count, elapsed },
            Quantity::PerSecond { count: right_count, elapsed: _ },
        ) => Quantity::PerSecond { count: (left_count + right_count) as u128, elapsed },
        (Quantity::Zero, _) => right,
        _ => left,
    }
}

/// The sum of rates over one span of time.
pub open spec fn total(rates: Seq<Quantity>) -> Quantity
    decreases rates.len(),
{
    if rates.len() == 0 {
        Quantity::Zero
    } else {
        plus(total(rates.drop_last()), rates.last())
    }
}

/// The sum of the exact values of quantities.
pub open spec fn sum_of_values(quantities: Seq<Quantity>) -> real
    decreases quantities.len(),
{
    if quantities.len() == 0 {
        0real
    } else {
        sum_of_values(quantities.drop_last()) + quantities.last().value()
    }
}

proof fn lemma_same_denominator(left: nat, right: nat, span: nat)
    requires
        span > 0,
    ensures
        ((left + right) * NANOS_PER_SECOND) as real / span as real == (left
            * NANOS_PER_SECOND) as real / span as real + (right * NANOS_PER_SECOND) as real
            / span as real,
{
    let a = (left * NANOS_PER_SECOND) as real;
    let b = (right * NANOS_PER_SECOND) as real;
    let c = ((left + right) * NANOS_PER_SECOND) as real;
    let d = span as real;
    assert(c == a + b);
    assert(c / d == a / d + b / d) by (nonlinear_arith)
        requires
            c == a + b,
            d > 0real,
    ;
}

/// The sum is a rate as soon as one summand is, over the same span.
proof fn lemma_total_shape(rates: Seq<Quantity>)
    requires
        same_span(rates),
        rates.len() <= u64::MAX,
    ensures
        match total(rates) {
            Quantity::Zero => true,
            Quantity::Share { .. } | Quantity::Fraction { .. } => false,
            Quantity::PerSecond { count, elapsed } => {
                &&& count <= rates.len() * u64::MAX
                &&& elapsed.nanos > 0
            },
        },
        total(rates).value() == sum_of_values(rates),
        forall|i: int|
            0 <= i < rates.len() && #[trigger] rates[i] is PerSecond ==> total(rates) is PerSecond
                && total(rates)->elapsed == rates[i]->elapsed,
        total(rates) is PerSecond ==> exists|i: int|
            0 <= i < rates.len() && #[trigger] rates[i] is PerSecond,
    decreases rates.len(),
{
    lemma_zero_value();
    if rates.len() > 0 {
        let rest = rates.drop_last();
        assert forall|i: int| 0 <= i < rest.len() implies #[trigger] rest[i] == rates[i] by {}
        lemma_total_shape(rest);
        assert(rates.last() == rates[rates.len() - 1]);
        assert(rates.len() * u64::MAX == rest.len() * u64::MAX + u64::MAX) by (nonlinear_arith)
            requires
                rates.len() == rest.len() + 1,
        ;
        assert(rates.len() * u64::MAX <= u64::MAX * u64::MAX) by (nonlinear_arith)
            requires
                rates.len() <= u64::MAX,
        ;
        if total(rest) is PerSecond {
            let i = choose|i: int| 0 <= i < rest.len() && #[trigger] rest[i] is PerSecond;
            assert(rates[i] is PerSecond);
            assert(rest[i]->elapsed == total(rest)->elapsed);
            if rates.last() is PerSecond {
                lemma_same_denominator(
                    total(rest)->count as nat,
                    rates.last()->count as nat,
                    rates.last()->elapsed.nanos as nat,
                );
            }
        }
        assert forall|i: int| 0 <= i < rates.len() && #[trigger] rates[i] is PerSecond implies total(
            rates,
        ) is PerSecond && total(rates)->elapsed == rates[i]->elapsed by {
            if i < rest.len() {
                assert(rest[i] is PerSecond);
            }
        }
    }
}

/// The sum of rates over one span has the sum of their values: nothing is
/// rounded. As many rates as memory can hold never exceed the counter of the
/// sum.
pub proof fn law_total_is_exact(rates: Seq<Quantity>)
    requires
        same_span(rates),
        rates.len() <= u64::MAX,
    ensures
        total(rates).value() == sum_of_values(rates),
        total(rates).well_formed(),
{
    lemma_total_shape(rates);
}

/// Adds up rates over one span of time, exactly.
fn total_of(rates: &Vec<Quantity>) -> (result: Quantity)
    requires
        same_span(rates@),
    ensures
        result == total(rates@),
        result.value() == sum_of_values(rates@),
        result.well_formed(),
{
    let mut sum: Quantity = Quantity::Zero;
    let mut i: usize = 0;
    assert(rates@.take(0) == Seq::<Quantity>::empty());
    while i < rates.len()
        invariant
            i <= rates@.len(),
            same_span(rates@),
            sum == total(rates@.take(i as int)),
        decreases rates@.len() - i,
    {
        let ghost seen = rates@.take(i + 1);
        assert(seen.drop_last() == rates@.take(i as int));
        assert(seen.last() == rates@[i as int]);
        proof {
            assert forall|j: int| 0 <= j < seen.len() implies #[trigger] seen[j] == rates@[j] by {}
            lemma_total_shape(seen.drop_last());
            assert((i as nat) * u64::MAX + u64::MAX <= u128::MAX) by (nonlinear_arith)
                requires
                    i < u64::MAX,
            ;
        }
        sum = match (sum, rates[i]) {
            (
                Quantity::PerSecond { count: left, elapsed },
                Quantity::PerSecond { count: right, elapsed: _ },
            ) => Quantity::PerSecond { count: left + right, elapsed },
            (Quantity::Zero, right) => right,
            (left, _) => left,
        };
        i += 1;
    }
    assert(rates@.take(rates@.len() as int) == rates@);
    proof {
        lemma_total_shape(rates@);
    }
    sum
}

/// Adds up the read rates and the write rates of pools that were compared with
/// samples of one moment.
pub(crate) fn total_rates(
    pools: &Vec<PoolSnapshot>,
    Ghost(memory): Ghost<Memory>,
    Ghost(now): Ghost<Instant>,
) -> (result: (Quantity, Quantity))
    requires
        of_one_moment(memory),
        forall|i: int| 0 <= i < pools@.len() ==> rates_since(memory, now, #[trigger] pools@[i]@),
    ensures
        result.0 == total(read_rates(pool_views(pools@))),
        result.0.value() == sum_of_values(read_rates(pool_views(pools@))),
        result.1 == total(write_rates(pool_views(pools@))),
        result.1.value() == sum_of_values(write_rates(pool_views(pools@))),
        result.0.well_formed() && result.1.well_formed(),
{
    let ghost views = pool_views(pools@);
    let mut reads: Vec<Quantity> = Vec::new();
    let mut writes: Vec<Quantity> = Vec::new();
    let mut i: usize = 0;
    while i < pools.len()
        invariant
            i <= pools@.len(),
            views == pool_views(pools@),
            reads@ == read_rates(views).take(i as int),
            writes@ == write_rates(views).take(i as int),
        decreases pools@.len() - i,
    {
        reads.push(pools[i].read_bytes_per_sec);
        writes.push(pools[i].write_bytes_per_sec);
        i += 1;
        assert(reads@ =~= read_rates(views).take(i as int));
        assert(writes@ =~= write_rates(views).take(i as int));
    }
    assert(reads@ =~= read_rates(views));
    assert(writes@ =~= write_rates(views));
    proof {
        assert forall|j: int| 0 <= j < views.len() implies rates_since(
            memory,
            now,
            #[trigger] views[j],
        ) by {
            assert(views[j] == pools@[j]@);
        }
        lemma_one_span(memory, now, views);
    }
    (total_of(&reads), total_of(&writes))
}

/// Rates since samples of one moment are rates over one span.
proof fn lemma_one_span(memory: Memory, now: Instant, pools: Seq<PoolView>)
    requires
        of_one_moment(memory),
        forall|i: int| 0 <= i < pools.len() ==> rates_since(memory, now, #[trigger] pools[i]),
    ensures
        same_span(read_rates(pools)),
        same_span(write_rates(pools)),
{
    let reads = read_rates(pools);
    let writes = write_rates(pools);
    assert forall|i: int| 0 <= i < pools.len() implies rate_since(memory, now, #[trigger] reads[i])
        && rate_since(memory, now, writes[i]) by {
        assert(rates_since(memory, now, pools[i]));
    }
    assert forall|i: int, j: int|
        0 <= i < reads.len() && 0 <= j < reads.len() && #[trigger] reads[i] is PerSecond
            && #[trigger] reads[j] is PerSecond implies reads[i]->elapsed == reads[j]->elapsed by {
        assert(rate_since(memory, now, reads[i]) && rate_since(memory, now, reads[j]));
    }
    assert forall|i: int| 0 <= i < pools.len() implies rate_since(
        memory,
        now,
        #[trigger] writes[i],
    ) by {
        assert(rate_since(memory, now, reads[i]) && rate_since(memory, now, writes[i]));
    }
}

/// One more pool adds its own rates to the sums, reads to reads and writes to
/// writes; no pools sum up to nothing.
pub proof fn law_each_pool_adds_its_own_rates(pools: Seq<PoolView>, pool: PoolView)
    ensures
        sum_of_values(read_rates(Seq::<PoolView>::empty())) == 0real,
        sum_of_values(write_rates(Seq::<PoolView>::empty())) == 0real,
        sum_of_values(read_rates(pools.push(pool))) == sum_of_values(read_rates(pools))
            + pool.read_bytes_per_sec.value(),
        sum_of_values(write_rates(pools.push(pool))) == sum_of_values(write_rates(pools))
            + pool.write_bytes_per_sec.value(),
{
    assert(read_rates(pools.push(pool)).drop_last() =~= read_rates(pools));
    assert(write_rates(pools.push(pool)).drop_last() =~= write_rates(pools));
}

/// The sum does not depend on which of two neighbours comes first.
pub proof fn law_sums_do_not_depend_on_the_order(
    before: Seq<Quantity>,
    left: Quantity,
    right: Quantity,
)
    ensures
        sum_of_values(before.push(left).push(right)) == sum_of_values(
            before.push(right).push(left),
        ),
        sum_of_values(before.push(left).push(right)) == sum_of_values(before) + left.value()
            + right.value(),
{
    lemma_sum_push(before, left);
    lemma_sum_push(before, right);
    lemma_sum_push(before.push(left), right);
    lemma_sum_push(before.push(right), left);
}

proof fn lemma_sum_push(before: Seq<Quantity>, quantity: Quantity)
    ensures
        sum_of_values(before.push(quantity)) == sum_of_values(before) + quantity.value(),
{
    assert(before.push(quantity).drop_last() =~= before);
}

/// The rates of a list of pools are those of its members, each in its place.
pub proof fn law_rates_are_taken_pool_by_pool(pools: Seq<PoolView>, i: int)
    requires
        0 <= i < pools.len(),
    ensures
        read_rates(pools).len() == pools.len(),
        write_rates(pools).len() == pools.len(),
        read_rates(pools)[i] == pools[i].read_bytes_per_sec,
        write_rates(pools)[i] == pools[i].write_bytes_per_sec,
{
}

} // verus!
