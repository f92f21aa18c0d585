//! Dividing space among widgets in a row or column
//!
//! The rule is this. Where the space does not exceed what the widgets need
//! at the least, each gets its minimum size. Where it exceeds that but not
//! the sum of the ideal sizes, each gets its minimum size, and what is
//! left goes to the widgets in their order, each taking what it lacks to
//! its ideal size, as long as something is left. Where the space exceeds
//! the sum of the ideal sizes, each gets its ideal size, and what is left
//! is divided evenly among the widgets that have the greatest stretch
//! policy found in the row; pixels that cannot be divided evenly go, one
//! each, to the first of these widgets.

use crate::geom::{clamp_i32, to_i32, Coord, Rect, Size};
use crate::layout::size_rules::{SizeRules, StretchPolicy};
use vstd::prelude::*;

verus! {

/// Sum of the minimum sizes of the first `n` rules.
pub open spec fn sum_min(rules: Seq<SizeRules>, n: nat) -> int
    decreases n,
{
    if n == 0 || n > rules.len() {
        0
    } else {
        sum_min(rules, (n - 1) as nat) + rules[n - 1].min
    }
}

/// Sum of the ideal sizes of the first `n` rules.
pub open spec fn sum_ideal(rules: Seq<SizeRules>, n: nat) -> int
    decreases n,
{
    if n == 0 || n > rules.len() {
        0
    } else {
        sum_ideal(rules, (n - 1) as nat) + rules[n - 1].ideal
    }
}

/// The greatest rank of a stretch policy among the first `n` rules.
pub open spec fn top_rank(rules: Seq<SizeRules>, n: nat) -> nat
    decreases n,
{
    if n == 0 || n > rules.len() {
        0
    } else if rules[n - 1].stretch.rank() > top_rank(rules, (n - 1) as nat) {
        rules[n - 1].stretch.rank()
    } else {
        top_rank(rules, (n - 1) as nat)
    }
}

/// Number of rules among the first `n` whose stretch policy has the rank
/// `rank`.
pub open spec fn count_rank(rules: Seq<SizeRules>, n: nat, rank: nat) -> nat
    decreases n,
{
    if n == 0 || n > rules.len() {
        0
    } else {
        count_rank(rules, (n - 1) as nat, rank) + if rules[n - 1].stretch.rank() == rank {
            1nat
        } else {
            0nat
        }
    }
}

/// What the widget `i` takes of `extra`, the space beyond the minimum
/// sizes, when the widgets before it have taken what they lack: what it
/// lacks itself, as far as something is left.
pub open spec fn filled(rules: Seq<SizeRules>, extra: int, i: int) -> int {
    let taken = sum_ideal(rules, i as nat) - sum_min(rules, i as nat);
    let lacking = rules[i].ideal - rules[i].min;
    let left = extra - taken;
    if left <= 0 {
        0
    } else if left >= lacking {
        lacking
    } else {
        left
    }
}

/// What the widget `i` gets of `slack`, the space beyond the ideal sizes:
/// an even share if its stretch policy is the greatest in the row, and one
/// pixel more if it is among the first of these, as many as pixels are left
/// over.
pub open spec fn stretched(rules: Seq<SizeRules>, slack: int, i: int) -> int {
    let top = top_rank(rules, rules.len());
    let sharers = count_rank(rules, rules.len(), top) as int;
    if rules[i].stretch.rank() == top && sharers > 0 {
        slack / sharers + if count_rank(rules, i as nat, top) < slack % sharers {
            1int
        } else {
            0int
        }
    } else {
        0
    }
}

/// The size that the widget `i` gets when `target` is divided among the
/// widgets with the rules `rules`.
pub open spec fn share(rules: Seq<SizeRules>, target: int, i: int) -> int {
    let mins = sum_min(rules, rules.len());
    let ideals = sum_ideal(rules, rules.len());
    if target <= mins {
        rules[i].min as int
    } else if target <= ideals {
        rules[i].min + filled(rules, target - mins, i)
    } else {
        rules[i].ideal + stretched(rules, target - ideals, i)
    }
}

/// Sum of the shares of the first `n` widgets.
pub open spec fn sum_share(rules: Seq<SizeRules>, target: int, n: nat) -> int
    decreases n,
{
    if n == 0 || n > rules.len() {
        0
    } else {
        sum_share(rules, target, (n - 1) as nat) + share(rules, target, n - 1)
    }
}

/// Divide `target` among the widgets with the given rules, in their order
///
/// Returns the size of each widget; see the description of the module for
/// the rule. Sizes saturate.
pub fn solve_seq(rules: &Vec<SizeRules>, target: i32) -> (out: Vec<i32>)
    ensures
        out@.len() == rules@.len(),
        forall|i: int|
            0 <= i < rules@.len() ==> #[trigger] out@[i] == clamp_i32(share(rules@, target as int, i)),
{
    let n = rules.len();
    let mut mins: i128 = 0;
    let mut ideals: i128 = 0;
    let mut top: u8 = 0;
    let mut i: usize = 0;
    while i < n
        invariant
            i <= n,
            n == rules@.len(),
            mins == sum_min(rules@, i as nat),
            ideals == sum_ideal(rules@, i as nat),
            top == top_rank(rules@, i as nat),
            -0x8000_0000 * i <= mins <= 0x8000_0000 * i,
            -0x8000_0000 * i <= ideals <= 0x8000_0000 * i,
        decreases n - i,
    {
        let r = rules[i];
        mins = mins + r.min as i128;
        ideals = ideals + r.ideal as i128;
        if r.stretch.level() > top {
            top = r.stretch.level();
        }
        i += 1;
    }
    let mut sharers: usize = 0;
    i = 0;
    while i < n
        invariant
            i <= n,
            n == rules@.len(),
            sharers == count_rank(rules@, i as nat, top as nat),
            sharers <= i,
        decreases n - i,
    {
        if rules[i].stretch.level() == top {
            sharers += 1;
        }
        i += 1;
    }
    let target_wide = target as i128;
    let mut out: Vec<i32> = Vec::new();
    let mut taken: i128 = 0;
    let mut seen: usize = 0;
    i = 0;
    while i < n
        invariant
            i <= n,
            n == rules@.len(),
            mins == sum_min(rules@, n as nat),
            ideals == sum_ideal(rules@, n as nat),
            top == top_rank(rules@, n as nat),
            sharers == count_rank(rules@, n as nat, top as nat),
            target_wide == target,
            taken == sum_ideal(rules@, i as nat) - sum_min(rules@, i as nat),
            -0x1_0000_0000 * i <= taken <= 0x1_0000_0000 * i,
            -0x8000_0000 * n <= mins <= 0x8000_0000 * n,
            -0x8000_0000 * n <= ideals <= 0x8000_0000 * n,
            seen == count_rank(rules@, i as nat, top as nat),
            seen <= i,
            out@.len() == i,
            forall|j: int|
                0 <= j < i ==> #[trigger] out@[j] == clamp_i32(share(rules@, target as int, j)),
        decreases n - i,
    {
        let r = rules[i];
        let size: i128 = if target_wide <= mins {
            r.min as i128
        } else if target_wide <= ideals {
            let lacking = r.ideal as i128 - r.min as i128;
            let left = target_wide - mins - taken;
            let fill = if left <= 0 {
                0
            } else if left >= lacking {
                lacking
            } else {
                left
            };
            r.min as i128 + fill
        } else {
            let slack = target_wide - ideals;
            let extra = if r.stretch.level() == top && sharers > 0 {
                let each = slack / sharers as i128;
                let over = slack % sharers as i128;
                if (seen as i128) < over {
                    each + 1
                } else {
                    each
                }
            } else {
                0
            };
            proof {
                if r.stretch.rank() == top && sharers > 0 {
                    let s = sharers as int;
                    let sl = slack as int;
                    vstd::arithmetic::div_mod::lemma_fundamental_div_mod(sl, s);
                    vstd::arithmetic::div_mod::lemma_mod_bound(sl, s);
                    assert(0 <= sl / s <= sl) by (nonlinear_arith)
                        requires
                            sl == s * (sl / s) + sl % s,
                            0 <= sl % s < s,
                            s >= 1,
                            sl > 0,
                    ;
                }
            }
            r.ideal as i128 + extra
        };
        let clamped = if size > i32::MAX as i128 {
            i32::MAX
        } else if size < i32::MIN as i128 {
            i32::MIN
        } else {
            size as i32
        };
        out.push(clamped);
        taken = taken + (r.ideal as i128 - r.min as i128);
        if r.stretch.level() == top {
            seen += 1;
        }
        i += 1;
    }
    out
}

/// What the first `n` widgets take of `extra`, taken together.
pub open spec fn sum_filled(rules: Seq<SizeRules>, extra: int, n: nat) -> int
    decreases n,
{
    if n == 0 || n > rules.len() {
        0
    } else {
        sum_filled(rules, extra, (n - 1) as nat) + filled(rules, extra, n - 1)
    }
}

/// What the first `n` widgets take of `extra` when they fill up from
/// their minimum sizes is `extra`, or all that they lack if that is less.
pub proof fn lemma_filled_sum(rules: Seq<SizeRules>, extra: int, n: nat)
    requires
        n <= rules.len(),
        extra >= 0,
        forall|i: int| 0 <= i < rules.len() ==> (#[trigger] rules[i]).wf(),
    ensures
        sum_filled(rules, extra, n) == {
            let lacking = sum_ideal(rules, n) - sum_min(rules, n);
            if extra <= lacking {
                extra
            } else {
                lacking
            }
        },
        sum_ideal(rules, n) - sum_min(rules, n) >= 0,
    decreases n,
{
    if n > 0 {
        lemma_filled_sum(rules, extra, (n - 1) as nat);
        assert(rules[n - 1].wf());
    }
}

/// Between the minimum and the ideal sizes, the shares of the first `n`
/// widgets add up to their minimum sizes and what they take of the rest.
pub proof fn lemma_fill_shares(rules: Seq<SizeRules>, target: int, n: nat)
    requires
        n <= rules.len(),
        sum_min(rules, rules.len()) < target <= sum_ideal(rules, rules.len()),
    ensures
        sum_share(rules, target, n) == sum_min(rules, n) + sum_filled(
            rules,
            target - sum_min(rules, rules.len()),
            n,
        ),
    decreases n,
{
    if n > 0 {
        lemma_fill_shares(rules, target, (n - 1) as nat);
    }
}

/// Some rule among the first `n` has the greatest rank found among them,
/// if there is a rule at all.
pub proof fn lemma_top_rank_occurs(rules: Seq<SizeRules>, n: nat)
    requires
        0 < n <= rules.len(),
    ensures
        count_rank(rules, n, top_rank(rules, n)) >= 1,
    decreases n,
{
    if n > 1 {
        lemma_top_rank_occurs(rules, (n - 1) as nat);
        if rules[n - 1].stretch.rank() > top_rank(rules, (n - 1) as nat) {
            assert(top_rank(rules, n) == rules[n - 1].stretch.rank());
        } else {
            assert(top_rank(rules, n) == top_rank(rules, (n - 1) as nat));
        }
    } else {
        assert(top_rank(rules, 0) == 0);
        assert(count_rank(rules, 0, top_rank(rules, 1)) == 0);
        assert(top_rank(rules, 1) == rules[0].stretch.rank());
    }
}

/// The number of rules of a rank among the first `n` grows with `n`.
pub proof fn lemma_count_rank_monotonic(rules: Seq<SizeRules>, n: nat, m: nat, rank: nat)
    requires
        n <= m <= rules.len(),
    ensures
        count_rank(rules, n, rank) <= count_rank(rules, m, rank),
        count_rank(rules, m, rank) <= m,
    decreases m,
{
    if m > 0 {
        if n < m {
            lemma_count_rank_monotonic(rules, n, (m - 1) as nat, rank);
        } else {
            lemma_count_rank_monotonic(rules, (m - 1) as nat, (m - 1) as nat, rank);
        }
    }
}

/// Beyond the ideal sizes, what the first `n` widgets get of the slack: an
/// even share for each that stretches, and of the pixels left over as
/// many as there are such widgets, but no more than are left over.
pub proof fn lemma_stretch_shares(rules: Seq<SizeRules>, target: int, n: nat)
    requires
        n <= rules.len(),
        target > sum_ideal(rules, rules.len()),
        rules.len() > 0,
        forall|i: int| 0 <= i < rules.len() ==> (#[trigger] rules[i]).wf(),
    ensures
        ({
            let slack = target - sum_ideal(rules, rules.len());
            let top = top_rank(rules, rules.len());
            let sharers = count_rank(rules, rules.len(), top) as int;
            let seen = count_rank(rules, n, top) as int;
            let over = slack % sharers;
            sum_share(rules, target, n) == sum_ideal(rules, n) + seen * (slack / sharers) + if seen
                <= over {
                seen
            } else {
                over
            }
        }),
    decreases n,
{
    let slack = target - sum_ideal(rules, rules.len());
    let top = top_rank(rules, rules.len());
    let sharers = count_rank(rules, rules.len(), top) as int;
    lemma_top_rank_occurs(rules, rules.len());
    lemma_lacking_monotonic(rules, 0, rules.len());
    vstd::arithmetic::div_mod::lemma_mod_bound(slack, sharers);
    if n > 0 {
        lemma_stretch_shares(rules, target, (n - 1) as nat);
        let seen = count_rank(rules, (n - 1) as nat, top) as int;
        let each = slack / sharers;
        let over = slack % sharers;
        assert((seen + 1) * each == seen * each + each) by (nonlinear_arith);
        assert(sum_share(rules, target, n) == sum_share(rules, target, (n - 1) as nat) + share(
            rules,
            target,
            n - 1,
        ));
        assert(sum_ideal(rules, n) == sum_ideal(rules, (n - 1) as nat) + rules[n - 1].ideal);
        assert(share(rules, target, n - 1) == rules[n - 1].ideal + stretched(rules, slack, n - 1));
        let before = sum_share(rules, target, (n - 1) as nat);
        assert(before == sum_ideal(rules, (n - 1) as nat) + seen * each + if seen <= over {
            seen
        } else {
            over
        });
        if rules[n - 1].stretch.rank() == top {
            assert(count_rank(rules, n, top) == seen + 1);
            assert(stretched(rules, slack, n - 1) == each + if seen < over {
                1int
            } else {
                0int
            });
            assert(sum_share(rules, target, n) == sum_ideal(rules, n) + (seen + 1) * each + if seen
                + 1 <= over {
                seen + 1
            } else {
                over
            });
        } else {
            assert(count_rank(rules, n, top) == seen);
            assert(stretched(rules, slack, n - 1) == 0);
            assert(sum_share(rules, target, n) == sum_ideal(rules, n) + seen * each + if seen <= over {
                seen
            } else {
                over
            });
        }
    } else {
        assert(sum_share(rules, target, 0) == 0);
        assert(sum_ideal(rules, 0) == 0);
        assert(count_rank(rules, 0, top) == 0);
        assert(0 * (slack / sharers) == 0) by (nonlinear_arith);
    }
}

/// Space that exceeds the minimum sizes is divided without rest: the
/// sizes of the widgets add up to the space. The rules have to be well
/// formed, and there has to be a widget.
pub proof fn lemma_shares_add_up(rules: Seq<SizeRules>, target: int)
    requires
        rules.len() > 0,
        forall|i: int| 0 <= i < rules.len() ==> (#[trigger] rules[i]).wf(),
        target > sum_min(rules, rules.len()),
    ensures
        sum_share(rules, target, rules.len()) == target,
{
    let n = rules.len();
    if target <= sum_ideal(rules, n) {
        lemma_fill_shares(rules, target, n);
        lemma_filled_sum(rules, target - sum_min(rules, n), n);
    } else {
        lemma_stretch_shares(rules, target, n);
        let slack = target - sum_ideal(rules, n);
        let top = top_rank(rules, n);
        let sharers = count_rank(rules, n, top) as int;
        lemma_top_rank_occurs(rules, n);
        vstd::arithmetic::div_mod::lemma_fundamental_div_mod(slack, sharers);
        vstd::arithmetic::div_mod::lemma_mod_bound(slack, sharers);
        assert(sharers * (slack / sharers) + slack % sharers == slack);
    }
}

/// No widget gets less than its minimum size, whatever the space. Space up
/// to the sum of the ideal sizes gives no widget more than its ideal size,
/// and space from that sum on gives no widget less. The rules have to be
/// well formed.
pub proof fn lemma_share_bounds(rules: Seq<SizeRules>, target: int, i: int)
    requires
        0 <= i < rules.len(),
        forall|j: int| 0 <= j < rules.len() ==> (#[trigger] rules[j]).wf(),
    ensures
        share(rules, target, i) >= rules[i].min,
        target <= sum_ideal(rules, rules.len()) ==> share(rules, target, i) <= rules[i].ideal,
        target >= sum_ideal(rules, rules.len()) ==> share(rules, target, i) >= rules[i].ideal,
{
    assert(rules[i].wf());
    let n = rules.len();
    lemma_lacking_monotonic(rules, (i + 1) as nat, n);
    lemma_lacking_monotonic(rules, 0, i as nat);
    assert(sum_ideal(rules, (i + 1) as nat) - sum_min(rules, (i + 1) as nat) == sum_ideal(
        rules,
        i as nat,
    ) - sum_min(rules, i as nat) + (rules[i].ideal - rules[i].min));
    if target > sum_ideal(rules, n) {
        let slack = target - sum_ideal(rules, n);
        let top = top_rank(rules, n);
        let sharers = count_rank(rules, n, top) as int;
        if sharers > 0 {
            vstd::arithmetic::div_mod::lemma_fundamental_div_mod(slack, sharers);
            vstd::arithmetic::div_mod::lemma_mod_bound(slack, sharers);
            assert(slack / sharers >= 0) by (nonlinear_arith)
                requires
                    slack == sharers * (slack / sharers) + slack % sharers,
                    0 <= slack % sharers < sharers,
                    slack > 0,
            ;
        }
    }
}

/// What the first `n` widgets lack to their ideal sizes grows with `n`,
/// if the rules are well formed.
pub proof fn lemma_lacking_monotonic(rules: Seq<SizeRules>, n: nat, m: nat)
    requires
        n <= m <= rules.len(),
        forall|j: int| 0 <= j < rules.len() ==> (#[trigger] rules[j]).wf(),
    ensures
        sum_ideal(rules, n) - sum_min(rules, n) <= sum_ideal(rules, m) - sum_min(rules, m),
    decreases m,
{
    if n < m {
        lemma_lacking_monotonic(rules, n, (m - 1) as nat);
        assert(rules[m - 1].wf());
    }
}

} // verus!
