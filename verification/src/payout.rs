use crate::state::PlayerId;
use vstd::prelude::*;

verus! {

/// One transfer out of the escrow vault: `amount` tokens to `recipient`.
#[derive(Clone, Copy, Debug, PartialEq, Eq)]
pub struct Payout {
    pub recipient: PlayerId,
    pub amount: u64,
}

/// A player with the score that the proportional split weighs them by.
#[derive(Clone, Copy, Debug, PartialEq, Eq)]
pub struct Standing {
    pub player: PlayerId,
    pub score: u32,
}

/// Sum of the amounts of the first `n` payouts.
pub open spec fn amount_sum(payouts: Seq<Payout>, n: int) -> int
    decreases n,
{
    if n <= 0 {
        0
    } else {
        amount_sum(payouts, n - 1) + payouts[n - 1].amount
    }
}

/// Sum of the amounts of all payouts.
pub open spec fn total_amount(payouts: Seq<Payout>) -> int {
    amount_sum(payouts, payouts.len() as int)
}

/// The payouts among the first `n` that move a positive amount, in order.
pub open spec fn nonzero_upto(payouts: Seq<Payout>, n: int) -> Seq<Payout>
    decreases n,
{
    if n <= 0 {
        Seq::empty()
    } else if payouts[n - 1].amount > 0 {
        nonzero_upto(payouts, n - 1).push(payouts[n - 1])
    } else {
        nonzero_upto(payouts, n - 1)
    }
}

/// What recipient `i` of `n` gets of `pot` in an equal split: the `n`-th part,
/// rounded down, and for the first recipient also what the division leaves.
pub open spec fn equal_share(pot: int, n: int, i: int) -> int {
    pot / n + if i == 0 {
        pot % n
    } else {
        0
    }
}

/// The equal split of `pot` among `recipients`: one payout each, in order.
pub open spec fn equal_split(recipients: Seq<PlayerId>, pot: u64) -> Seq<Payout> {
    Seq::new(
        recipients.len(),
        |i: int|
            Payout {
                recipient: recipients[i],
                amount: equal_share(pot as int, recipients.len() as int, i) as u64,
            },
    )
}

/// Sum of the scores of the first `n` standings.
pub open spec fn score_sum(standings: Seq<Standing>, n: int) -> int
    decreases n,
{
    if n <= 0 {
        0
    } else {
        score_sum(standings, n - 1) + standings[n - 1].score
    }
}

/// Sum of all scores.
pub open spec fn total_score(standings: Seq<Standing>) -> int {
    score_sum(standings, standings.len() as int)
}

/// The weight of standing `i` in the split: its score, or 1 for everyone
/// where nobody scored, so that the pot is then split equally.
pub open spec fn weight(standings: Seq<Standing>, i: int) -> int {
    if total_score(standings) == 0 {
        1
    } else {
        standings[i].score as int
    }
}

/// Sum of the weights of the first `n` standings.
pub open spec fn weight_sum(standings: Seq<Standing>, n: int) -> int {
    if total_score(standings) == 0 {
        if n <= 0 {
            0
        } else {
            n
        }
    } else {
        score_sum(standings, n)
    }
}

/// Sum of all weights.
pub open spec fn total_weight(standings: Seq<Standing>) -> int {
    weight_sum(standings, standings.len() as int)
}

/// The share of `pot` in proportion to the weight of standing `i`, rounded
/// down.
pub open spec fn floor_share(standings: Seq<Standing>, pot: int, i: int) -> int {
    pot * weight(standings, i) / total_weight(standings)
}

/// Sum of the rounded-down shares of the first `n` standings.
pub open spec fn floor_sum(standings: Seq<Standing>, pot: int, n: int) -> int
    decreases n,
{
    if n <= 0 {
        0
    } else {
        floor_sum(standings, pot, n - 1) + floor_share(standings, pot, n - 1)
    }
}

/// What the rounded-down shares leave of `pot`.
pub open spec fn remainder(standings: Seq<Standing>, pot: int) -> int {
    pot - floor_sum(standings, pot, standings.len() as int)
}

/// The first standing at or after `from` with a positive weight, or the
/// number of standings where there is none.
pub open spec fn first_weighted(standings: Seq<Standing>, from: int) -> int
    decreases standings.len() - from,
{
    if from < 0 || from >= standings.len() {
        standings.len() as int
    } else if weight(standings, from) > 0 {
        from
    } else {
        first_weighted(standings, from + 1)
    }
}

/// What standing `i` gets of `pot`: its rounded-down share, and for the
/// first standing with a positive weight also what the rounding leaves.
pub open spec fn proportional_share(standings: Seq<Standing>, pot: int, i: int) -> int {
    floor_share(standings, pot, i) + if i == first_weighted(standings, 0) {
        remainder(standings, pot)
    } else {
        0
    }
}

/// The share of every standing, in order, zero shares included.
pub open spec fn proportional_shares(standings: Seq<Standing>, pot: u64) -> Seq<Payout> {
    Seq::new(
        standings.len(),
        |i: int|
            Payout {
                recipient: standings[i].player,
                amount: proportional_share(standings, pot as int, i) as u64,
            },
    )
}

/// The proportional split of `pot` among `standings`: one payout for each
/// standing whose share is positive, in order.
pub open spec fn proportional_split(standings: Seq<Standing>, pot: u64) -> Seq<Payout> {
    nonzero_upto(proportional_shares(standings, pot), standings.len() as int)
}

/// The sum of the first `n` amounts depends on the first `n` payouts only.
pub proof fn lemma_amount_sum_prefix(a: Seq<Payout>, b: Seq<Payout>, n: int)
    requires
        forall|i: int| 0 <= i < n ==> a[i] == b[i],
    ensures
        amount_sum(a, n) == amount_sum(b, n),
    decreases n,
{
    if n > 0 {
        lemma_amount_sum_prefix(a, b, n - 1);
    }
}

/// Appending a payout raises the total by its amount.
pub proof fn lemma_total_amount_push(payouts: Seq<Payout>, payout: Payout)
    ensures
        total_amount(payouts.push(payout)) == total_amount(payouts) + payout.amount,
{
    lemma_amount_sum_prefix(payouts.push(payout), payouts, payouts.len() as int);
}

/// Leaving out the payouts that move nothing leaves the total unchanged.
pub proof fn lemma_nonzero_total(payouts: Seq<Payout>, n: int)
    ensures
        total_amount(nonzero_upto(payouts, n)) == amount_sum(payouts, n),
    decreases n,
{
    if n > 0 {
        lemma_nonzero_total(payouts, n - 1);
        if payouts[n - 1].amount > 0 {
            lemma_total_amount_push(nonzero_upto(payouts, n - 1), payouts[n - 1]);
        }
    }
}

/// The first `k` payouts of an equal split among `n` recipients come to `k`
/// times the rounded-down part, plus what the division leaves.
proof fn lemma_equal_split_sum(recipients: Seq<PlayerId>, pot: u64, k: int)
    requires
        0 <= k <= recipients.len(),
    ensures
        amount_sum(equal_split(recipients, pot), k) == k * (pot as int / recipients.len() as int)
            + if k > 0 {
            pot as int % recipients.len() as int
        } else {
            0
        },
    decreases k,
{
    if k > 0 {
        let n = recipients.len() as int;
        let q = pot as int / n;
        lemma_equal_split_sum(recipients, pot, k - 1);
        lemma_equal_share_bounds(pot as int, n, k - 1);
        assert(k * q == (k - 1) * q + q) by (nonlinear_arith);
    } else {
        assert(k * (pot as int / recipients.len() as int) == 0) by (nonlinear_arith)
            requires
                k == 0,
        ;
    }
}

/// Every share of an equal split lies between nothing and the whole pot.
pub proof fn lemma_equal_share_bounds(pot: int, n: int, i: int)
    requires
        0 <= pot,
        0 < n,
    ensures
        0 <= equal_share(pot, n, i) <= pot,
        n * (pot / n) + pot % n == pot,
{
    vstd::arithmetic::div_mod::lemma_fundamental_div_mod(pot, n);
    vstd::arithmetic::div_mod::lemma_mod_bound(pot, n);
    vstd::arithmetic::div_mod::lemma_div_pos_is_pos(pot, n);
    assert((pot / n) <= n * (pot / n)) by (nonlinear_arith)
        requires
            0 <= pot / n,
            1 <= n,
    ;
}

/// An equal split hands out the whole pot: nothing is created, and what the
/// division leaves goes to the first recipient.
pub proof fn lemma_equal_split_total(recipients: Seq<PlayerId>, pot: u64)
    requires
        recipients.len() > 0,
    ensures
        total_amount(equal_split(recipients, pot)) == pot,
{
    let n = recipients.len() as int;
    lemma_equal_split_sum(recipients, pot, n);
    lemma_equal_share_bounds(pot as int, n, 0);
}

/// Splits `pot` equally among `recipients`, in order.
///
/// Each gets the same part, rounded down; what the division leaves goes to
/// the first, so that the payouts come to the pot exactly.
pub fn equal_payouts(recipients: &Vec<PlayerId>, pot: u64) -> (payouts: Vec<Payout>)
    ensures
        payouts@ == equal_split(recipients@, pot),
        recipients.len() > 0 ==> total_amount(payouts@) == pot,
{
    let n = recipients.len();
    let mut payouts: Vec<Payout> = Vec::new();
    if n == 0 {
        return payouts;
    }
    let part = pot / (n as u64);
    let rest = pot % (n as u64);
    proof {
        lemma_equal_share_bounds(pot as int, n as int, 0);
        lemma_equal_split_total(recipients@, pot);
    }
    let mut i: usize = 0;
    while i < n
        invariant
            i <= n,
            n == recipients.len(),
            n > 0,
            part == pot as int / n as int,
            rest == pot as int % n as int,
            part + rest <= pot,
            payouts.len() == i,
            forall|j: int| 0 <= j < i ==> payouts[j] == equal_split(recipients@, pot)[j],
        decreases n - i,
    {
        let amount = if i == 0 {
            part + rest
        } else {
            part
        };
        payouts.push(Payout { recipient: recipients[i], amount });
        i = i + 1;
    }
    payouts
}

/// A part of `pot` in the proportion of `w` to `total`, rounded down, lies
/// between nothing and the pot, and is no more than the exact part.
proof fn lemma_scaled_floor(pot: int, w: int, total: int)
    requires
        0 <= pot,
        0 <= w <= total,
        0 < total,
    ensures
        0 <= pot * w / total <= pot,
        total * (pot * w / total) <= pot * w,
{
    let x = pot * w;
    assert(0 <= x <= pot * total) by (nonlinear_arith)
        requires
            x == pot * w,
            0 <= pot,
            0 <= w <= total,
    ;
    vstd::arithmetic::div_mod::lemma_fundamental_div_mod(x, total);
    vstd::arithmetic::div_mod::lemma_mod_bound(x, total);
    vstd::arithmetic::div_mod::lemma_div_pos_is_pos(x, total);
    let q = x / total;
    assert(q <= pot) by (nonlinear_arith)
        requires
            total * q <= pot * total,
            0 < total,
    ;
}

/// Score sums grow with the prefix, and no score exceeds a sum that holds it.
proof fn lemma_score_sum(standings: Seq<Standing>, i: int, n: int)
    requires
        0 <= i <= n,
    ensures
        0 <= score_sum(standings, i) <= score_sum(standings, n),
        i < n ==> standings[i].score <= score_sum(standings, n),
    decreases n,
{
    if i < n {
        lemma_score_sum(standings, i, n - 1);
        if i < n - 1 {
        } else {
            lemma_score_sum(standings, 0, i);
        }
    } else {
        if n > 0 {
            lemma_score_sum(standings, 0, n - 1);
            lemma_score_sum(standings, n - 1, n - 1);
        }
    }
}

/// Every weight lies between zero and the positive sum of all weights, and
/// weight sums grow with the prefix up to that sum.
pub proof fn lemma_weights(standings: Seq<Standing>, i: int)
    requires
        0 <= i < standings.len(),
    ensures
        0 <= weight(standings, i) <= total_weight(standings),
        0 < total_weight(standings),
        0 <= weight_sum(standings, i) <= total_weight(standings),
        weight_sum(standings, i + 1) == weight_sum(standings, i) + weight(standings, i),
        weight_sum(standings, i + 1) <= total_weight(standings),
{
    let n = standings.len() as int;
    lemma_score_sum(standings, i, n);
    lemma_score_sum(standings, i + 1, n);
    lemma_score_sum(standings, 0, n);
}

/// Every rounded-down share lies between nothing and the pot.
pub proof fn lemma_floor_share_bounds(standings: Seq<Standing>, pot: int, i: int)
    requires
        0 <= pot,
        0 <= i < standings.len(),
    ensures
        0 <= floor_share(standings, pot, i) <= pot,
        total_weight(standings) * floor_share(standings, pot, i) <= pot * weight(standings, i),
{
    lemma_weights(standings, i);
    lemma_scaled_floor(pot, weight(standings, i), total_weight(standings));
}

/// The rounded-down shares of a prefix come to no more than the pot, and
/// each of them to no more than their sum.
pub proof fn lemma_floor_sum_bounds(standings: Seq<Standing>, pot: int, n: int)
    requires
        0 <= pot,
        0 <= n <= standings.len(),
    ensures
        0 <= floor_sum(standings, pot, n) <= pot,
        total_weight(standings) * floor_sum(standings, pot, n) <= pot * weight_sum(standings, n),
        forall|i: int| 0 <= i < n ==> floor_share(standings, pot, i) <= floor_sum(standings, pot, n),
    decreases n,
{
    let total = total_weight(standings);
    if n > 0 {
        lemma_floor_sum_bounds(standings, pot, n - 1);
        lemma_floor_share_bounds(standings, pot, n - 1);
        lemma_weights(standings, n - 1);
        let prev = floor_sum(standings, pot, n - 1);
        let share = floor_share(standings, pot, n - 1);
        let w_prev = weight_sum(standings, n - 1);
        let w = weight(standings, n - 1);
        assert(total * (prev + share) <= pot * (w_prev + w)) by (nonlinear_arith)
            requires
                total * prev <= pot * w_prev,
                total * share <= pot * w,
        ;
        assert(prev + share <= pot) by (nonlinear_arith)
            requires
                total * (prev + share) <= pot * (w_prev + w),
                w_prev + w <= total,
                0 < total,
                0 <= pot,
        ;
    } else {
        assert(total * floor_sum(standings, pot, n) == 0) by (nonlinear_arith)
            requires
                floor_sum(standings, pot, n) == 0,
        ;
        assert(pot * weight_sum(standings, n) >= 0) by (nonlinear_arith)
            requires
                0 <= pot,
                0 <= weight_sum(standings, n),
        ;
    }
}

/// `first_weighted` gives the first standing at or after `from` with a
/// positive weight.
proof fn lemma_first_weighted_from(standings: Seq<Standing>, from: int)
    requires
        0 <= from <= standings.len(),
    ensures
        from <= first_weighted(standings, from) <= standings.len(),
        first_weighted(standings, from) < standings.len() ==> weight(
            standings,
            first_weighted(standings, from),
        ) > 0,
        forall|j: int|
            from <= j < first_weighted(standings, from) ==> weight(standings, j) == 0,
    decreases standings.len() - from,
{
    if from < standings.len() && weight(standings, from) <= 0 {
        lemma_first_weighted_from(standings, from + 1);
    }
}

/// Scores that are all zero sum to zero.
proof fn lemma_zero_scores(standings: Seq<Standing>, n: int)
    requires
        0 <= n <= standings.len(),
        forall|j: int| 0 <= j < n ==> standings[j].score == 0,
    ensures
        score_sum(standings, n) == 0,
    decreases n,
{
    if n > 0 {
        lemma_zero_scores(standings, n - 1);
    }
}

/// Where there is a standing at all, one of them has a positive weight.
pub proof fn lemma_first_weighted(standings: Seq<Standing>)
    requires
        standings.len() > 0,
    ensures
        0 <= first_weighted(standings, 0) < standings.len(),
        weight(standings, first_weighted(standings, 0)) > 0,
{
    lemma_first_weighted_from(standings, 0);
    if first_weighted(standings, 0) == standings.len() {
        assert forall|j: int| 0 <= j < standings.len() implies standings[j].score == 0 by {
            assert(weight(standings, j) == 0);
        }
        lemma_zero_scores(standings, standings.len() as int);
    }
}

/// Every share of a proportional split lies between nothing and the pot.
pub proof fn lemma_proportional_share_bounds(standings: Seq<Standing>, pot: int, i: int)
    requires
        0 <= pot,
        0 <= i < standings.len(),
    ensures
        0 <= proportional_share(standings, pot, i) <= pot,
{
    lemma_floor_share_bounds(standings, pot, i);
    lemma_floor_sum_bounds(standings, pot, standings.len() as int);
}

/// The first `n` shares of a proportional split come to their rounded-down
/// parts, plus what the rounding leaves once the standing that takes it is
/// among them.
proof fn lemma_proportional_shares_sum(standings: Seq<Standing>, pot: u64, n: int)
    requires
        0 <= n <= standings.len(),
    ensures
        amount_sum(proportional_shares(standings, pot), n) == floor_sum(standings, pot as int, n)
            + if first_weighted(standings, 0) < n {
            remainder(standings, pot as int)
        } else {
            0
        },
    decreases n,
{
    lemma_first_weighted_from(standings, 0);
    if n > 0 {
        lemma_proportional_shares_sum(standings, pot, n - 1);
        lemma_proportional_share_bounds(standings, pot as int, n - 1);
    }
}

/// A proportional split hands out the whole pot, whatever the scores: what
/// the rounding leaves goes to the first standing with a positive weight.
pub proof fn lemma_proportional_split_total(standings: Seq<Standing>, pot: u64)
    requires
        standings.len() > 0,
    ensures
        total_amount(proportional_split(standings, pot)) == pot,
{
    let n = standings.len() as int;
    lemma_nonzero_total(proportional_shares(standings, pot), n);
    lemma_proportional_shares_sum(standings, pot, n);
    lemma_first_weighted(standings);
}

/// Splits `pot` among `standings` in proportion to their scores, in order.
///
/// Each gets its part of the whole pot, rounded down; what the rounding
/// leaves goes to the first standing with a positive score, so that the
/// payouts come to the pot exactly. Where nobody scored, the pot is split
/// equally. A standing whose share is nothing gets no payout.
pub fn proportional_payouts(standings: &Vec<Standing>, pot: u64) -> (payouts: Vec<Payout>)
    ensures
        payouts@ == proportional_split(standings@, pot),
        standings.len() > 0 ==> total_amount(payouts@) == pot,
{
    let n = standings.len();
    let mut payouts: Vec<Payout> = Vec::new();
    if n == 0 {
        return payouts;
    }
    let mut total: u128 = 0;
    let mut i: usize = 0;
    while i < n
        invariant
            i <= n,
            n == standings.len(),
            total == score_sum(standings@, i as int),
            total <= i * 0xFFFF_FFFF,
        decreases n - i,
    {
        total = total + standings[i].score as u128;
        i = i + 1;
    }
    let uniform = total == 0;
    let total_w: u128 = if uniform {
        n as u128
    } else {
        total
    };
    proof {
        lemma_weights(standings@, 0);
        lemma_proportional_split_total(standings@, pot);
    }
    let mut floors: u128 = 0;
    let mut first: usize = n;
    i = 0;
    while i < n
        invariant
            i <= n,
            n == standings.len(),
            n > 0,
            uniform == (total_score(standings@) == 0),
            total_w == total_weight(standings@),
            total_w > 0,
            floors == floor_sum(standings@, pot as int, i as int),
            floors <= pot,
            first <= n,
            first == n ==> first_weighted(standings@, i as int) == first_weighted(standings@, 0),
            first < n ==> first == first_weighted(standings@, 0),
        decreases n - i,
    {
        let w: u128 = if uniform {
            1
        } else {
            standings[i].score as u128
        };
        proof {
            lemma_weights(standings@, i as int);
            lemma_floor_share_bounds(standings@, pot as int, i as int);
            lemma_floor_sum_bounds(standings@, pot as int, i + 1);
            assert(pot as u128 * w <= 0xFFFF_FFFF_FFFF_FFFF * 0xFFFF_FFFF) by (nonlinear_arith)
                requires
                    pot <= 0xFFFF_FFFF_FFFF_FFFF,
                    w <= 0xFFFF_FFFF,
            ;
        }
        let share = (pot as u128 * w) / total_w;
        floors = floors + share;
        if first == n && w > 0 {
            first = i;
        }
        i = i + 1;
    }
    let rest: u64 = pot - floors as u64;
    proof {
        lemma_first_weighted(standings@);
    }
    i = 0;
    while i < n
        invariant
            i <= n,
            n == standings.len(),
            n > 0,
            uniform == (total_score(standings@) == 0),
            total_w == total_weight(standings@),
            total_w > 0,
            rest == remainder(standings@, pot as int),
            first == first_weighted(standings@, 0),
            payouts@ == nonzero_upto(proportional_shares(standings@, pot), i as int),
        decreases n - i,
    {
        let w: u128 = if uniform {
            1
        } else {
            standings[i].score as u128
        };
        proof {
            lemma_floor_share_bounds(standings@, pot as int, i as int);
            lemma_proportional_share_bounds(standings@, pot as int, i as int);
            assert(pot as u128 * w <= 0xFFFF_FFFF_FFFF_FFFF * 0xFFFF_FFFF) by (nonlinear_arith)
                requires
                    pot <= 0xFFFF_FFFF_FFFF_FFFF,
                    w <= 0xFFFF_FFFF,
            ;
        }
        let share = ((pot as u128 * w) / total_w) as u64;
        let amount = if i == first {
            share + rest
        } else {
            share
        };
        if amount > 0 {
            payouts.push(Payout { recipient: standings[i].player, amount });
        }
        i = i + 1;
    }
    payouts
}

} // verus!
