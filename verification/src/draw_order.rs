//! The sequence in which the drawables of a model are painted.

use vstd::prelude::*;

verus! {

/// Whether drawable `first` is painted before drawable `second`: its draw
/// order is lower, or the draw orders are equal and its index is lower.
pub open spec fn painted_before(draw_orders: Seq<i32>, first: int, second: int) -> bool {
    draw_orders[first] < draw_orders[second] || (draw_orders[first] == draw_orders[second]
        && first < second)
}

/// Whether `index` stands somewhere in `sequence`.
pub open spec fn lists(sequence: Seq<usize>, index: int) -> bool {
    exists|k: int| 0 <= k < sequence.len() && #[trigger] sequence[k] == index
}

/// Whether `sequence` lists every index of `draw_orders` in the order of
/// painting. There is exactly one such sequence.
pub open spec fn is_draw_sequence(draw_orders: Seq<i32>, sequence: Seq<usize>) -> bool {
    &&& sequence.len() == draw_orders.len()
    &&& forall|k: int| 0 <= k < sequence.len() ==> (#[trigger] sequence[k]) < draw_orders.len()
    &&& forall|i: int| 0 <= i < draw_orders.len() ==> #[trigger] lists(sequence, i)
    &&& forall|a: int, b: int|
        0 <= a < b < sequence.len() ==> painted_before(
            draw_orders,
            #[trigger] sequence[a] as int,
            #[trigger] sequence[b] as int,
        )
}

/// The indices of the drawables in the order of painting: by ascending draw
/// order, and by ascending index among equal draw orders.
pub fn draw_sequence(draw_orders: &[i32]) -> (sequence: Vec<usize>)
    ensures
        is_draw_sequence(draw_orders@, sequence@),
{
    let count = draw_orders.len();
    let mut sequence: Vec<usize> = Vec::new();
    let mut next: usize = 0;
    while next < count
        invariant
            next <= count == draw_orders@.len(),
            sequence@.len() == next,
            forall|k: int| 0 <= k < sequence@.len() ==> (#[trigger] sequence@[k]) < next,
            forall|i: int| 0 <= i < next ==> #[trigger] lists(sequence@, i),
            forall|a: int, b: int|
                0 <= a < b < sequence@.len() ==> painted_before(
                    draw_orders@,
                    #[trigger] sequence@[a] as int,
                    #[trigger] sequence@[b] as int,
                ),
        decreases count - next,
    {
        let order = draw_orders[next];
        let mut at: usize = sequence.len();
        while at > 0 && draw_orders[sequence[at - 1]] > order
            invariant
                at <= sequence@.len() == next < count == draw_orders@.len(),
                order == draw_orders@[next as int],
                forall|k: int| 0 <= k < sequence@.len() ==> (#[trigger] sequence@[k]) < next,
                forall|k: int|
                    at <= k < sequence@.len() ==> draw_orders@[(#[trigger] sequence@[k]) as int]
                        > order,
            decreases at,
        {
            at -= 1;
        }
        let ghost before = sequence@;
        sequence.insert(at, next);
        proof {
            let after = sequence@;
            assert forall|a: int, b: int| 0 <= a < b < after.len() implies painted_before(
                draw_orders@,
                #[trigger] after[a] as int,
                #[trigger] after[b] as int,
            ) by {
                if b < at {
                    assert(after[a] == before[a] && after[b] == before[b]);
                } else if b == at {
                    assert(after[a] == before[a]);
                    if a < at - 1 {
                        assert(painted_before(
                            draw_orders@,
                            before[a] as int,
                            before[at - 1] as int,
                        ));
                    }
                } else if a < at {
                    assert(after[a] == before[a] && after[b] == before[b - 1]);
                } else if a == at {
                    assert(after[b] == before[b - 1]);
                } else {
                    assert(after[a] == before[a - 1] && after[b] == before[b - 1]);
                }
            }
            assert forall|i: int| 0 <= i < next + 1 implies #[trigger] lists(after, i) by {
                if i == next {
                    assert(after[at as int] == i);
                } else {
                    assert(lists(before, i));
                    let k = choose|k: int| 0 <= k < before.len() && #[trigger] before[k] == i;
                    if k < at {
                        assert(after[k] == i);
                    } else {
                        assert(after[k + 1] == i);
                    }
                }
            }
            assert forall|k: int| 0 <= k < after.len() implies (#[trigger] after[k]) < next
                + 1 by {
                if k < at {
                    assert(after[k] == before[k]);
                } else if k > at {
                    assert(after[k] == before[k - 1]);
                }
            }
        }
        next += 1;
    }
    sequence
}

/// Two sequences that both list the drawables in the order of painting are
/// the same sequence.
pub proof fn lemma_draw_sequence_is_unique(
    draw_orders: Seq<i32>,
    first: Seq<usize>,
    second: Seq<usize>,
)
    requires
        is_draw_sequence(draw_orders, first),
        is_draw_sequence(draw_orders, second),
    ensures
        first == second,
{
    assert forall|k: int| 0 <= k < first.len() implies first[k] == second[k] by {
        lemma_draw_sequence_agrees_at(draw_orders, first, second, k);
    }
    assert(first =~= second);
}

/// Two draw sequences hold the same drawable at every place.
proof fn lemma_draw_sequence_agrees_at(
    draw_orders: Seq<i32>,
    first: Seq<usize>,
    second: Seq<usize>,
    k: int,
)
    requires
        is_draw_sequence(draw_orders, first),
        is_draw_sequence(draw_orders, second),
        0 <= k < first.len(),
    ensures
        first[k] == second[k],
    decreases k,
{
    let x = first[k];
    assert(lists(second, x as int));
    let place = choose|j: int| 0 <= j < second.len() && #[trigger] second[j] == x;
    if place < k {
        lemma_draw_sequence_agrees_at(draw_orders, first, second, place);
        assert(first[place] == x);
        assert(painted_before(draw_orders, first[place] as int, first[k] as int));
    } else if place > k {
        let y = second[k];
        assert(lists(first, y as int));
        let back = choose|j: int| 0 <= j < first.len() && #[trigger] first[j] == y;
        assert(painted_before(draw_orders, second[k] as int, second[place] as int));
        if back < k {
            lemma_draw_sequence_agrees_at(draw_orders, first, second, back);
            assert(second[back] == y);
            assert(painted_before(draw_orders, second[back] as int, second[k] as int));
        } else if back > k {
            assert(painted_before(draw_orders, first[k] as int, first[back] as int));
        } else {
            assert(first[k] == y);
        }
    }
}

} // verus!
