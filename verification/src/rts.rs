//! The order in which the RTS counts the bowties of a tile.
//!
//! Gains and delays come in M&C order: row by row. The RTS counts column by column, each column
//! from its last row to its first, and takes delays relative to the mean of the tile.

use vstd::arithmetic::div_mod::{lemma_fundamental_div_mod, lemma_fundamental_div_mod_converse};
use vstd::prelude::*;

use crate::double::Double;

verus! {

/// The delays of a tile's bowties.
///
/// Bowtie `k` is delayed by `steps[k]` delay steps or, where `mean_of` holds a total, by that much
/// less the total's share of one bowtie.
pub struct TileDelays {
    pub steps: Vec<u32>,
    pub mean_of: Option<u128>,
}

/// What [`TileDelays`] stands for.
#[verifier::ext_equal]
pub struct DelayModel {
    pub steps: Seq<u32>,
    pub mean_of: Option<nat>,
}

impl View for TileDelays {
    type V = DelayModel;

    open spec fn view(&self) -> DelayModel {
        DelayModel {
            steps: self.steps@,
            mean_of: match self.mean_of {
                Some(total) => Some(total as nat),
                None => None,
            },
        }
    }
}

/// The number of bowties in a square tile with `side` bowties per row.
pub open spec fn square(side: nat) -> nat {
    side * side
}

/// Can `n` bowties make a square tile?
pub open spec fn is_square(n: nat) -> bool {
    exists|side: nat| square(side) == n
}

/// The number of bowties per row of a square tile with `n` bowties.
pub open spec fn side_of(n: nat) -> nat {
    choose|side: nat| square(side) == n
}

/// Where in M&C order the bowtie stands that the RTS counts as number `p`.
pub open spec fn rts_source(side: nat, p: int) -> int {
    (side - 1 - p % (side as int)) * side + p / (side as int)
}

/// The values `s` of a tile's bowties in RTS order.
pub open spec fn rts_order<T>(s: Seq<T>, side: nat) -> Seq<T> {
    Seq::new(square(side), |p: int| s[rts_source(side, p)])
}

/// The sum of `s`.
pub open spec fn total(s: Seq<u32>) -> nat
    decreases s.len(),
{
    if s.len() == 0 {
        0
    } else {
        total(s.drop_last()) + s.last() as nat
    }
}

/// The delays of a tile as the RTS takes them.
pub open spec fn rts_delays(delays: Seq<u32>) -> DelayModel {
    let steps = rts_order(delays, side_of(delays.len()));
    DelayModel { steps, mean_of: Some(total(steps)) }
}

/// The delays of a tile as they are given, in M&C order.
pub open spec fn given_delays(delays: Seq<u32>) -> DelayModel {
    DelayModel { steps: delays, mean_of: None }
}

/// The delays of a tile as they are given, in M&C order.
pub fn delays_as_given(delays: &[u32]) -> (r: TileDelays)
    ensures
        r@ == given_delays(delays@),
{
    let num_bowties = delays.len();
    let mut steps: Vec<u32> = Vec::with_capacity(num_bowties);
    let mut i: usize = 0;
    while i < num_bowties
        invariant
            i <= num_bowties,
            num_bowties == delays@.len(),
            steps@ =~= delays@.take(i as int),
        decreases num_bowties - i,
    {
        steps.push(delays[i]);
        i = i + 1;
    }
    TileDelays { steps, mean_of: None }
}

/// A square has one side.
pub proof fn lemma_side(side: nat)
    ensures
        is_square(square(side)),
        side_of(square(side)) == side,
{
    let other = side_of(square(side));
    assert(square(other) == square(side));
    if other < side {
        assert(other * other < side * side) by (nonlinear_arith)
            requires
                other < side,
        ;
    }
    if other > side {
        assert(other * other > side * side) by (nonlinear_arith)
            requires
                other > side,
        ;
    }
}

/// The number of bowties per row of a square tile with `num_bowties` bowties.
pub fn bowties_per_side(num_bowties: usize) -> (side: usize)
    requires
        is_square(num_bowties as nat),
    ensures
        square(side as nat) == num_bowties,
        side == side_of(num_bowties as nat),
{
    let ghost goal = side_of(num_bowties as nat);
    let mut side: usize = 0;
    assert(goal * goal == num_bowties);
    assert(0 * 0 <= num_bowties);
    while side * side < num_bowties
        invariant
            side <= goal,
            goal * goal == num_bowties,
            side * side <= num_bowties,
        decreases goal - side,
    {
        assert(side < goal) by (nonlinear_arith)
            requires
                side <= goal,
                goal * goal == num_bowties,
                side * side < num_bowties,
        ;
        assert((side + 1) * (side + 1) <= num_bowties) by (nonlinear_arith)
            requires
                side + 1 <= goal,
                goal * goal == num_bowties,
        ;
        assert(side + 1 <= num_bowties) by (nonlinear_arith)
            requires
                (side + 1) * (side + 1) <= num_bowties,
                side >= 0,
        ;
        side = side + 1;
    }
    proof {
        lemma_side(side as nat);
    }
    side
}

/// Where the RTS's count leads: in range, and by its column and row.
pub proof fn lemma_rts_source(side: nat, col: int, turn: int)
    requires
        0 <= col < side,
        0 <= turn < side,
    ensures
        0 <= col * side + turn < square(side),
        rts_source(side, col * side + turn) == (side - 1 - turn) * side + col,
        0 <= (side - 1 - turn) * side + col < square(side),
{
    let b = side as int;
    let p = col * b + turn;
    lemma_fundamental_div_mod_converse(p, b, col, turn);
    assert(0 <= p < b * b) by (nonlinear_arith)
        requires
            0 <= col < b,
            0 <= turn < b,
            p == col * b + turn,
    ;
    let q = (b - 1 - turn) * b + col;
    assert(0 <= q < b * b) by (nonlinear_arith)
        requires
            0 <= col < b,
            0 <= turn < b,
            q == (b - 1 - turn) * b + col,
    ;
}

/// Every position of a tile has a column and a place in it.
pub proof fn lemma_rts_position(side: nat, p: int)
    requires
        0 <= p < square(side),
    ensures
        0 <= p / (side as int) < side,
        0 <= p % (side as int) < side,
        p == (p / (side as int)) * side + p % (side as int),
{
    let b = side as int;
    assert(b > 0) by (nonlinear_arith)
        requires
            b >= 0,
            0 <= p < b * b,
    ;
    lemma_fundamental_div_mod(p, b);
    let q = p / b;
    let r = p % b;
    assert(p == q * b + r) by (nonlinear_arith)
        requires
            p == b * q + r,
    ;
    assert(0 <= q < b) by (nonlinear_arith)
        requires
            0 <= p < b * b,
            p == q * b + r,
            0 <= r < b,
    ;
}

/// Put a tile's gains and delays in RTS order, and take the delays relative to their mean.
pub fn reorder_to_rts(amps: &[Double], delays: &[u32]) -> (r: (Vec<Double>, TileDelays))
    requires
        is_square(delays@.len()),
        amps@.len() >= delays@.len(),
    ensures
        r.0@ == rts_order(amps@, side_of(delays@.len())),
        r.1@ == rts_delays(delays@),
{
    let num_bowties = delays.len();
    let side = bowties_per_side(num_bowties);
    let ghost b = side as nat;
    let mut rts_amps: Vec<Double> = Vec::with_capacity(num_bowties);
    let mut rts_steps: Vec<u32> = Vec::with_capacity(num_bowties);
    let mut sum: u128 = 0;
    let mut col: usize = 0;
    assert(0 * side == 0);
    while col < side
        invariant
            b == side,
            col <= side,
            square(b) == num_bowties,
            delays@.len() == num_bowties,
            amps@.len() >= num_bowties,
            rts_amps@.len() == col * side,
            rts_steps@.len() == col * side,
            forall|p: int| 0 <= p < rts_amps@.len() ==> rts_amps@[p] == amps@[rts_source(b, p)],
            forall|p: int| 0 <= p < rts_steps@.len() ==> rts_steps@[p] == delays@[rts_source(b, p)],
            sum == total(rts_steps@),
            sum <= rts_steps@.len() * u32::MAX,
        decreases side - col,
    {
        let mut turn: usize = 0;
        while turn < side
            invariant
                b == side,
                col < side,
                turn <= side,
                square(b) == num_bowties,
                delays@.len() == num_bowties,
                amps@.len() >= num_bowties,
                rts_amps@.len() == col * side + turn,
                rts_steps@.len() == col * side + turn,
                forall|p: int| 0 <= p < rts_amps@.len() ==> rts_amps@[p] == amps@[rts_source(b, p)],
                forall|p: int|
                    0 <= p < rts_steps@.len() ==> rts_steps@[p] == delays@[rts_source(b, p)],
                sum == total(rts_steps@),
                sum <= rts_steps@.len() * u32::MAX,
            decreases side - turn,
        {
            proof {
                lemma_rts_source(b, col as int, turn as int);
                assert((side - 1 - turn) * side <= (side - 1 - turn) * side + col);
                assert((side - 1 - turn) * side >= 0) by (nonlinear_arith)
                    requires
                        turn < side,
                ;
            }
            let i: usize = (side - 1 - turn) * side + col;
            rts_amps.push(amps[i]);
            let ghost before = rts_steps@;
            rts_steps.push(delays[i]);
            assert(rts_steps@.drop_last() == before);
            sum = sum + delays[i] as u128;
            turn = turn + 1;
        }
        assert((col + 1) * side == col * side + side) by (nonlinear_arith);
        col = col + 1;
    }
    assert(rts_amps@ =~= rts_order(amps@, b));
    assert(rts_steps@ =~= rts_order(delays@, b));
    (rts_amps, TileDelays { steps: rts_steps, mean_of: Some(sum) })
}

/// Where the RTS counts the bowtie that stands at `i` in M&C order.
pub open spec fn rts_position(side: nat, i: int) -> int {
    (i % (side as int)) * side + (side - 1 - i / (side as int))
}

/// The RTS counts every bowtie of a tile once, and none besides.
pub proof fn law_rts_counts_every_bowtie_once(side: nat, p: int)
    requires
        0 <= p < square(side),
    ensures
        0 <= rts_source(side, p) < square(side),
        0 <= rts_position(side, p) < square(side),
        rts_position(side, rts_source(side, p)) == p,
        rts_source(side, rts_position(side, p)) == p,
{
    let b = side as int;
    lemma_rts_position(side, p);
    let col = p / b;
    let turn = p % b;
    lemma_rts_source(side, col, turn);
    lemma_fundamental_div_mod_converse(rts_source(side, p), b, b - 1 - turn, col);
    lemma_rts_source(side, turn, b - 1 - col);
}

/// Counting as the RTS does is a quarter turn of the tile: a second one counts the bowties
/// backwards, and a fourth one brings every bowtie back to where it was.
pub proof fn law_rts_order_is_a_quarter_turn(side: nat, p: int)
    requires
        0 <= p < square(side),
    ensures
        rts_source(side, rts_source(side, p)) == square(side) - 1 - p,
        rts_source(side, rts_source(side, rts_source(side, rts_source(side, p)))) == p,
{
    lemma_two_quarter_turns(side, p);
    lemma_two_quarter_turns(side, square(side) - 1 - p);
}

proof fn lemma_two_quarter_turns(side: nat, p: int)
    requires
        0 <= p < square(side),
    ensures
        rts_source(side, rts_source(side, p)) == square(side) - 1 - p,
{
    let b = side as int;
    lemma_rts_position(side, p);
    let col = p / b;
    let turn = p % b;
    lemma_rts_source(side, col, turn);
    lemma_rts_source(side, b - 1 - turn, col);
    assert((b - 1 - col) * b + (b - 1 - turn) == b * b - 1 - (col * b + turn)) by (nonlinear_arith);
}

/// The RTS order of a tile's values holds the same values, each as often.
pub proof fn law_rts_order_keeps_the_values<T>(s: Seq<T>, side: nat)
    requires
        s.len() == square(side),
    ensures
        rts_order(s, side).to_multiset() == s.to_multiset(),
{
    let f = |p: int| rts_source(side, p);
    let g = |i: int| rts_position(side, i);
    assert forall|p: int| 0 <= p < s.len() implies 0 <= #[trigger] f(p) < s.len() && g(f(p)) == p by {
        law_rts_counts_every_bowtie_once(side, p);
    }
    assert forall|i: int| 0 <= i < s.len() implies 0 <= #[trigger] g(i) < s.len() && f(g(i)) == i by {
        law_rts_counts_every_bowtie_once(side, i);
    }
    lemma_reindexed_multiset(s, f, g);
    assert(rts_order(s, side) =~= Seq::new(s.len(), |p: int| s[f(p)]));
}

/// Reordering a tile's delays keeps their sum, so the mean that the RTS takes off is that of the
/// delays as given.
pub proof fn law_rts_mean_is_that_of_the_delays(delays: Seq<u32>)
    requires
        is_square(delays.len()),
    ensures
        rts_delays(delays).mean_of == Some(total(delays)),
        rts_delays(delays).steps.len() == delays.len(),
{
    let side = side_of(delays.len());
    law_rts_order_keeps_the_values(delays, side);
    lemma_total_of_multiset(rts_order(delays, side), delays);
}

/// What is left of the delays once their mean is taken off sums to zero (here every delay is
/// multiplied by the number of bowties, so that the mean is a whole number).
pub proof fn law_rts_delays_sum_to_zero(delays: Seq<u32>)
    requires
        is_square(delays.len()),
    ensures
        total_offset(rts_delays(delays).steps, delays.len(), rts_delays(delays).mean_of->0) == 0,
{
    law_rts_mean_is_that_of_the_delays(delays);
    let steps = rts_delays(delays).steps;
    lemma_total_offset(steps, delays.len(), total(steps));
    let n = delays.len();
    let t = total(steps);
    assert(n * t - n * t == 0);
}

/// The sum, over `steps`, of `n` times the delay less `sum`.
pub open spec fn total_offset(steps: Seq<u32>, n: nat, sum: nat) -> int
    decreases steps.len(),
{
    if steps.len() == 0 {
        0
    } else {
        total_offset(steps.drop_last(), n, sum) + (n * steps.last() - sum)
    }
}

proof fn lemma_total_offset(steps: Seq<u32>, n: nat, sum: nat)
    ensures
        total_offset(steps, n, sum) == n * total(steps) - steps.len() * sum,
    decreases steps.len(),
{
    if steps.len() == 0 {
        assert(n * 0 - 0 * sum == 0) by (nonlinear_arith);
    } else {
        lemma_total_offset(steps.drop_last(), n, sum);
        let t = total(steps.drop_last());
        let last = steps.last() as nat;
        let len = steps.len();
        assert(n * (t + last) - len * sum == n * t - (len - 1) * sum + (n * last - sum))
            by (nonlinear_arith);
    }
}

proof fn lemma_total_remove(s: Seq<u32>, i: int)
    requires
        0 <= i < s.len(),
    ensures
        total(s) == total(s.remove(i)) + s[i],
    decreases s.len(),
{
    if i == s.len() - 1 {
        assert(s.remove(i) =~= s.drop_last());
    } else {
        lemma_total_remove(s.drop_last(), i);
        assert(s.remove(i).drop_last() =~= s.drop_last().remove(i));
        assert(s.remove(i).last() == s.last());
    }
}

proof fn lemma_total_of_multiset(s: Seq<u32>, t: Seq<u32>)
    requires
        s.to_multiset() == t.to_multiset(),
    ensures
        total(s) == total(t),
        s.len() == t.len(),
    decreases s.len(),
{
    broadcast use vstd::seq_lib::group_to_multiset_ensures;

    assert(s.len() == s.to_multiset().len());
    assert(t.len() == t.to_multiset().len());
    if s.len() > 0 {
        let x = s.last();
        assert(s.contains(x));
        assert(t.to_multiset().count(x) > 0);
        assert(t.contains(x));
        let i = choose|i: int| 0 <= i < t.len() && t[i] == x;
        let k = s.len() - 1;
        assert(s.remove(k) =~= s.drop_last());
        assert(s.remove(k).to_multiset() == t.remove(i).to_multiset());
        lemma_total_of_multiset(s.drop_last(), t.remove(i));
        lemma_total_remove(t, i);
    }
}

proof fn lemma_reindexed_multiset<T>(s: Seq<T>, f: spec_fn(int) -> int, g: spec_fn(int) -> int)
    requires
        forall|p: int| 0 <= p < s.len() ==> 0 <= #[trigger] f(p) < s.len() && g(f(p)) == p,
        forall|i: int| 0 <= i < s.len() ==> 0 <= #[trigger] g(i) < s.len() && f(g(i)) == i,
    ensures
        Seq::new(s.len(), |p: int| s[f(p)]).to_multiset() == s.to_multiset(),
    decreases s.len(),
{
    broadcast use vstd::seq_lib::group_to_multiset_ensures;

    let t = Seq::new(s.len(), |p: int| s[f(p)]);
    if s.len() == 0 {
        assert(t =~= s);
    } else {
        let last = s.len() - 1;
        let k = g(last);
        let rest = s.drop_last();
        let skip = |p: int| if p < k { p } else { p + 1 };
        let f2 = |p: int| f(skip(p));
        let g2 = |i: int| if g(i) < k { g(i) } else { g(i) - 1 };
        assert forall|p: int| 0 <= p < rest.len() implies 0 <= #[trigger] f2(p) < rest.len() && g2(
            f2(p),
        ) == p by {
            let q = skip(p);
            assert(0 <= f(q) < s.len() && g(f(q)) == q);
        }
        assert forall|i: int| 0 <= i < rest.len() implies 0 <= #[trigger] g2(i) < rest.len() && f2(
            g2(i),
        ) == i by {
            assert(0 <= g(i) < s.len() && f(g(i)) == i);
            assert(f(k) == last);
        }
        lemma_reindexed_multiset(rest, f2, g2);
        assert(t.remove(k) =~= Seq::new(rest.len(), |p: int| rest[f2(p)])) by {
            assert forall|p: int| 0 <= p < rest.len() implies #[trigger] t.remove(k)[p] == rest[f2(
                p,
            )] by {
                assert(0 <= f2(p) < rest.len());
            }
        }
        assert(s.remove(last) =~= rest);
        assert(t[k] == s[last]);
        assert(t.contains(t[k]) && s.contains(s[last]));
        assert(t.to_multiset() =~= t.remove(k).to_multiset().insert(t[k]));
        assert(s.to_multiset() =~= s.remove(last).to_multiset().insert(s[last]));
    }
}

} // verus!
