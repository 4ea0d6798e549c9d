//! Summing the experience of one batch of keystrokes per skill.
use vstd::prelude::*;

use crate::grammar::tokens_of;
use crate::levels::pairs_view;
use crate::lexer::parse_tokens;
use crate::parse_utils::{classify, skill_of};
use crate::skills::{skill_exp, skill_index, skill_name, Skills, SKILL_COUNT};
use crate::token::{Token, TokenView};

verus! {

/// The experience token `t` earns for the skill at position `k`.
pub open spec fn exp_for(t: TokenView, k: int) -> int {
    match skill_of(t) {
        Some(sk) => if skill_index(sk) == k {
            skill_exp(sk)
        } else {
            0
        },
        None => 0,
    }
}

/// The experience `tokens` earn for the skill at position `k`.
pub open spec fn skill_total(tokens: Seq<TokenView>, k: int) -> int
    decreases tokens.len(),
{
    if tokens.len() == 0 {
        0
    } else {
        skill_total(tokens.drop_last(), k) + exp_for(tokens.last(), k)
    }
}

/// Experience pinned at the largest value an `i32` holds.
pub open spec fn cap_exp(v: int) -> int {
    if v > i32::MAX {
        i32::MAX as int
    } else {
        v
    }
}

/// The entries of the skills from position `k` on that earned experience.
pub open spec fn delta_from(tokens: Seq<TokenView>, k: int) -> Seq<(Seq<char>, int)>
    decreases SKILL_COUNT - k,
{
    if k < 0 || k >= SKILL_COUNT {
        Seq::empty()
    } else if skill_total(tokens, k) > 0 {
        seq![(skill_name(k), cap_exp(skill_total(tokens, k)))] + delta_from(tokens, k + 1)
    } else {
        delta_from(tokens, k + 1)
    }
}

/// The batch delta of `tokens`: one entry per skill that earned experience, in
/// skill order, with the sum of what it earned.
pub open spec fn batch_delta(tokens: Seq<TokenView>) -> Seq<(Seq<char>, int)> {
    delta_from(tokens, 0)
}

/// Tokenizes `input` to the end, classifies every token, and sums the
/// experience per skill.
pub fn aggregate_batch(input: &str) -> (r: Vec<(String, i32)>)
    ensures
        pairs_view(r@) == batch_delta(tokens_of(input@)),
{
    let tokens = parse_tokens(input);
    let ghost all = tokens@.map_values(|t: Token| t@);
    let mut totals: Vec<i32> = Vec::new();
    let mut k: usize = 0;
    while k < SKILL_COUNT
        invariant
            k <= SKILL_COUNT,
            totals.len() == k,
            forall|j: int| 0 <= j < k ==> totals@[j] == 0,
        decreases SKILL_COUNT - k,
    {
        totals.push(0);
        k += 1;
    }
    let mut i: usize = 0;
    while i < tokens.len()
        invariant
            i <= tokens.len(),
            all == tokens@.map_values(|t: Token| t@),
            all == tokens_of(input@),
            forall|j: int| 0 <= j < tokens.len() ==> crate::token::count_in_range(#[trigger] tokens@[j]@),
            totals.len() == SKILL_COUNT,
            forall|j: int|
                0 <= j < SKILL_COUNT ==> skill_total(all.take(i as int), j) >= 0
                    && totals@[j] == cap_exp(#[trigger] skill_total(all.take(i as int), j)),
        decreases tokens.len() - i,
    {
        let ghost t = tokens@[i as int]@;
        let ghost prev = totals@;
        assert(all.take(i + 1).drop_last() =~= all.take(i as int));
        assert(all.take(i + 1).last() == t);
        assert forall|j: int| 0 <= j < SKILL_COUNT implies skill_total(all.take(i + 1), j)
            == skill_total(all.take(i as int), j) + exp_for(t, j) && exp_for(t, j) >= 0 by {
            assert(crate::token::count_in_range(t));
        }
        if let Some(skill) = classify(&tokens[i]) {
            let k = skill.index();
            let v = totals[k] as i64 + skill.get_exp_from_skill() as i64;
            totals.set(k, if v > i32::MAX as i64 { i32::MAX } else { v as i32 });
        }
        i += 1;
    }
    assert(all.take(i as int) =~= all);
    let mut r: Vec<(String, i32)> = Vec::new();
    let mut k: usize = 0;
    while k < SKILL_COUNT
        invariant
            k <= SKILL_COUNT,
            totals.len() == SKILL_COUNT,
            forall|j: int|
                0 <= j < SKILL_COUNT ==> skill_total(all, j) >= 0 && totals@[j] == cap_exp(
                    #[trigger] skill_total(all, j),
                ),
            pairs_view(r@) + delta_from(all, k as int) == batch_delta(all),
        decreases SKILL_COUNT - k,
    {
        let ghost before = r@;
        if totals[k] > 0 {
            r.push((Skills::from_index(k, 0).to_str(), totals[k]));
            assert(pairs_view(r@) =~= pairs_view(before).push((skill_name(k as int), totals@[k as int] as int)));
            assert(pairs_view(r@) + delta_from(all, k + 1) =~= pairs_view(before) + delta_from(all, k as int));
        }
        k += 1;
    }
    assert(pairs_view(r@) =~= pairs_view(r@) + delta_from(all, k as int));
    r
}

} // verus!
