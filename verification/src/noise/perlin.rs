//! The permutation table of gradient noise: the numbers `0..256` in an order
//! fixed by a seed, written out twice so that a sum of two entries can index
//! the table without wrapping.

use vstd::prelude::*;
use rand::seq::SliceRandom;
use rand::SeedableRng;

verus! {

/// The length of one period of the table.
pub const PERIOD: usize = 256;

/// The order in which `rand`'s standard generator, seeded with `seed`,
/// leaves `items` when it shuffles them.
pub uninterp spec fn shuffled(seed: u64, items: Seq<usize>) -> Seq<usize>;

/// Shuffles `items` with `rand`'s standard generator: `StdRng::seed_from_u64`
/// makes the generator from the seed, and `SliceRandom::shuffle` swaps the
/// items in place, drawing from it. The result is fixed by the seed and the
/// items, and holds the same items, each as often as before; nothing else is
/// claimed of the order.
#[verifier::external_body]
fn shuffle(seed: u64, items: Vec<usize>) -> (mixed: Vec<usize>)
    ensures
        mixed@ == shuffled(seed, items@),
        mixed@.len() == items@.len(),
        mixed@.to_multiset() == items@.to_multiset(),
{
    let mut mixed = items;
    let mut rng = rand::rngs::StdRng::seed_from_u64(seed);
    mixed.shuffle(&mut rng);
    mixed
}

/// The numbers `0..PERIOD` in rising order.
pub open spec fn identity() -> Seq<usize> {
    Seq::new(PERIOD as nat, |i: int| i as usize)
}

/// Whether `table` is a permutation table: two periods long, the second a
/// copy of the first, and every entry an index into one period.
pub open spec fn is_permutation_table(table: Seq<usize>) -> bool {
    &&& table.len() == 2 * PERIOD
    &&& forall|i: int| 0 <= i < table.len() ==> #[trigger] table[i] < PERIOD
    &&& forall|i: int| 0 <= i < PERIOD ==> table[i + PERIOD] == #[trigger] table[i]
}

/// The permutation table for a seed: the numbers `0..256`, shuffled with the
/// seed, twice over.
pub fn generate_permutation_table(seed: u64) -> (perm: [usize; 512])
    ensures
        is_permutation_table(perm@),
        forall|i: int|
            0 <= i < 512 ==> #[trigger] perm@[i] == shuffled(seed, identity())[i % (PERIOD as int)],
        perm@.subrange(0, PERIOD as int).to_multiset() == identity().to_multiset(),
{
    let mut p: Vec<usize> = Vec::new();
    let mut n: usize = 0;
    while n < PERIOD
        invariant
            n <= PERIOD,
            p@.len() == n,
            forall|i: int| 0 <= i < n ==> p@[i] == i,
        decreases PERIOD - n,
    {
        p.push(n);
        n = n + 1;
    }
    assert(p@ =~= identity());
    let p = shuffle(seed, p);
    proof {
        assert forall|i: int| 0 <= i < p@.len() implies #[trigger] p@[i] < PERIOD by {
            lemma_shuffled_entry(p@, identity(), i);
        }
    }
    let mut perm: [usize; 512] = [0; 512];
    let mut i: usize = 0;
    while i < 512
        invariant
            i <= 512,
            p@.len() == PERIOD,
            p@ == shuffled(seed, identity()),
            forall|k: int| 0 <= k < i ==> #[trigger] perm@[k] == p@[k % (PERIOD as int)],
        decreases 512 - i,
    {
        perm[i] = p[i % PERIOD];
        i = i + 1;
    }
    assert(perm@.subrange(0, PERIOD as int) =~= p@);
    perm
}

/// An entry of a sequence that holds the same items as `items` is one of
/// the items.
proof fn lemma_shuffled_entry(mixed: Seq<usize>, items: Seq<usize>, i: int)
    requires
        mixed.to_multiset() == items.to_multiset(),
        0 <= i < mixed.len(),
        items == identity(),
    ensures
        mixed[i] < PERIOD,
{
    assert(mixed.contains(mixed[i]));
    vstd::seq_lib::to_multiset_contains(mixed, mixed[i]);
    vstd::seq_lib::to_multiset_contains(items, mixed[i]);
    assert(items.contains(mixed[i]));
    let k = choose|k: int| 0 <= k < items.len() && items[k] == mixed[i];
    assert(items[k] == k);
}

} // verus!
