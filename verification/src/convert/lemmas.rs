//! What holds of the policies, whatever the text and whatever is drawn.

use crate::convert::random::{FlipState, DRAW_RANGE};
use crate::convert::simple::CasePolicy;
use crate::convert::{
    converts_lines, converts_text, in_range, lemma_run_keeps_kind, threads_lines, Policy,
};
use crate::unicode::{is_alpha, is_lower, is_upper, lowercase_form, uppercase_form};
use vstd::prelude::*;

verus! {

/// Whether `c` has no case at all: it is neither lower-case nor upper-case,
/// and upper-casing and lower-casing both give `c` itself.
pub open spec fn lacks_case(c: char) -> bool {
    &&& !is_lower(c)
    &&& !is_upper(c)
    &&& uppercase_form(c) == seq![c]
    &&& lowercase_form(c) == seq![c]
}

/// Whether `lower` and `upper` are the two cases of one letter, each the
/// single character that the other maps to.
pub open spec fn one_to_one(lower: char, upper: char) -> bool {
    &&& is_alpha(lower)
    &&& is_alpha(upper)
    &&& !is_upper(lower)
    &&& is_upper(upper)
    &&& uppercase_form(lower) == seq![upper]
    &&& lowercase_form(upper) == seq![lower]
}

/// Whether the policy leaves every character of `s` as it is.
pub open spec fn keeps_each(policy: CasePolicy, s: Seq<char>) -> bool {
    forall|i: int| 0 <= i < s.len() ==> policy.form(#[trigger] s[i]) == seq![s[i]]
}

/// A character that is no letter comes out as it went in, under every
/// policy and whatever is drawn, and leaves the policy as it was.
pub proof fn lemma_no_letter_passes(policy: Policy, c: char, draw: u16)
    requires
        !is_alpha(c),
    ensures
        policy.step(c, draw) == (policy, seq![c]),
        !policy.needs_draw(c),
{
}

/// A letter without case comes out as it went in, under every policy and
/// whatever is drawn.
pub proof fn lemma_caseless_letter_passes(policy: Policy, c: char, draw: u16)
    requires
        is_alpha(c),
        lacks_case(c),
    ensures
        policy.step(c, draw).1 == seq![c],
{
}

/// The empty text gives the empty text, under every policy, and leaves the
/// policy as it was. No number is drawn for it.
pub proof fn lemma_empty_text(policy: Policy, draws: Seq<u16>)
    ensures
        policy.run(Seq::empty(), draws) == (policy, Seq::<char>::empty()),
        policy.draws_needed(Seq::empty()) == 0,
{
}

/// A text that holds no letter comes out as it went in, under every policy,
/// and leaves the policy as it was. No number is drawn for it.
pub proof fn lemma_text_without_letters(policy: Policy, s: Seq<char>, draws: Seq<u16>)
    requires
        forall|i: int| 0 <= i < s.len() ==> !is_alpha(#[trigger] s[i]),
    ensures
        policy.run(s, draws) == (policy, s),
        policy.draws_needed(s) == 0,
    decreases s.len(),
{
    if s.len() > 0 {
        lemma_text_without_letters(policy, s.drop_last(), draws);
        assert(!is_alpha(s.last()));
        assert(s.drop_last() + seq![s.last()] == s);
    }
}

/// A text whose characters the policy leaves as they are comes out as it
/// went in.
pub proof fn lemma_kept_text(policy: CasePolicy, s: Seq<char>)
    requires
        keeps_each(policy, s),
    ensures
        policy.text(s) == s,
    decreases s.len(),
{
    if s.len() > 0 {
        assert(keeps_each(policy, s.drop_last())) by {
            assert forall|i: int| 0 <= i < s.drop_last().len() implies policy.form(
                #[trigger] s.drop_last()[i],
            ) == seq![s.drop_last()[i]] by {
                assert(s.drop_last()[i] == s[i]);
            }
        }
        lemma_kept_text(policy, s.drop_last());
        assert(policy.form(s.last()) == seq![s.last()]);
        assert(s.drop_last() + seq![s.last()] == s);
    }
}

/// Converting twice gives what converting once gives, for every character
/// whose form holds only characters that the policy leaves as they are.
///
/// Whether the form of a letter is of that kind is a fact about the Unicode
/// tables. A character that the policy does not rewrite is always of that
/// kind.
pub proof fn lemma_twice_is_once(policy: CasePolicy, c: char)
    requires
        keeps_each(policy, policy.form(c)),
    ensures
        policy.text(policy.form(c)) == policy.form(c),
{
    lemma_kept_text(policy, policy.form(c));
}

/// A character that the policy does not rewrite stays the same however
/// often it is converted.
pub proof fn lemma_twice_is_once_when_kept(policy: CasePolicy, c: char)
    requires
        !policy.eligible(c),
    ensures
        policy.form(c) == seq![c],
        policy.text(policy.form(c)) == policy.form(c),
{
    assert(keeps_each(policy, seq![c])) by {
        assert forall|i: int| 0 <= i < seq![c].len() implies policy.form(#[trigger] seq![c][i])
            == seq![seq![c][i]] by {
            assert(seq![c][i] == c);
        }
    }
    lemma_kept_text(policy, seq![c]);
}

/// The text of a single character is the form of that character.
pub proof fn lemma_text_of_one(policy: CasePolicy, c: char)
    ensures
        policy.text(seq![c]) == policy.form(c),
{
    assert(seq![c].drop_last() == Seq::<char>::empty());
    assert(policy.text(seq![c].drop_last()) == Seq::<char>::empty());
    assert(seq![c].last() == c);
    assert(Seq::<char>::empty() + policy.form(c) == policy.form(c));
}

/// Reversing the case twice gives back either case of a letter whose two
/// cases map one to one.
pub proof fn lemma_reverse_twice(lower: char, upper: char)
    requires
        one_to_one(lower, upper),
    ensures
        CasePolicy::Reverse.form(lower) == seq![upper],
        CasePolicy::Reverse.form(upper) == seq![lower],
        CasePolicy::Reverse.text(CasePolicy::Reverse.form(lower)) == seq![lower],
        CasePolicy::Reverse.text(CasePolicy::Reverse.form(upper)) == seq![upper],
{
    lemma_text_of_one(CasePolicy::Reverse, lower);
    lemma_text_of_one(CasePolicy::Reverse, upper);
}

/// The numbers drawn for two texts, one after the other, are those drawn
/// for the first and then those drawn for the second.
pub proof fn lemma_draws_needed_concat(policy: Policy, first: Seq<char>, second: Seq<char>)
    ensures
        policy.draws_needed(first + second) == policy.draws_needed(first) + policy.draws_needed(
            second,
        ),
    decreases second.len(),
{
    if second.len() == 0 {
        assert(first + second == first);
    } else {
        lemma_draws_needed_concat(policy, first, second.drop_last());
        assert((first + second).drop_last() == first + second.drop_last());
        assert((first + second).last() == second.last());
    }
}

/// A run does not depend on where the text is cut: converting two texts one
/// after the other, the second from the state that the first left, gives
/// what converting them as one text gives, with the same draws.
pub proof fn lemma_run_concat(
    policy: Policy,
    first: Seq<char>,
    second: Seq<char>,
    first_draws: Seq<u16>,
    second_draws: Seq<u16>,
)
    requires
        second_draws.len() == policy.draws_needed(second),
    ensures
        policy.run(first + second, first_draws + second_draws) == ({
            let (reached, head) = policy.run(first, first_draws);
            let (after, tail) = reached.run(second, second_draws);
            (after, head + tail)
        }),
    decreases second.len(),
{
    let (reached, head) = policy.run(first, first_draws);
    lemma_run_keeps_kind(policy, first, first_draws);
    if second.len() == 0 {
        assert(first + second == first);
        assert(first_draws + second_draws == first_draws);
        assert(head + Seq::<char>::empty() == head);
    } else {
        let whole = first + second;
        assert(whole.drop_last() == first + second.drop_last());
        assert(whole.last() == second.last());
        assert(policy.needs_draw(second.last()) == reached.needs_draw(second.last()));
        if policy.needs_draw(second.last()) {
            assert((first_draws + second_draws).drop_last() == first_draws
                + second_draws.drop_last());
            assert((first_draws + second_draws).last() == second_draws.last());
            lemma_run_concat(
                policy,
                first,
                second.drop_last(),
                first_draws,
                second_draws.drop_last(),
            );
            let (before_last, tail) = reached.run(second.drop_last(), second_draws.drop_last());
            let (after, piece) = before_last.step(second.last(), second_draws.last());
            assert((head + tail) + piece == head + (tail + piece));
        } else {
            lemma_run_concat(policy, first, second.drop_last(), first_draws, second_draws);
            let (before_last, tail) = reached.run(second.drop_last(), second_draws);
            let (after, piece) = before_last.step(second.last(), 0);
            assert((head + tail) + piece == head + (tail + piece));
        }
    }
}

/// What two conversions in a row can give, the second from the state that
/// the first left, one conversion of the joined text can give.
pub proof fn lemma_texts_in_a_row(
    before: Policy,
    first: Seq<char>,
    reached: Policy,
    head: Seq<char>,
    second: Seq<char>,
    after: Policy,
    tail: Seq<char>,
)
    requires
        converts_text(before, first, reached, head),
        converts_text(reached, second, after, tail),
    ensures
        converts_text(before, first + second, after, head + tail),
{
    let first_draws = choose|draws: Seq<u16>|
        draws.len() == before.draws_needed(first) && in_range(draws) && #[trigger] before.run(
            first,
            draws,
        ) == (reached, head);
    let second_draws = choose|draws: Seq<u16>|
        draws.len() == reached.draws_needed(second) && in_range(draws) && #[trigger] reached.run(
            second,
            draws,
        ) == (after, tail);
    lemma_run_keeps_kind(before, first, first_draws);
    lemma_draws_needed_same_kind(before, reached, second);
    lemma_draws_needed_concat(before, first, second);
    lemma_run_concat(before, first, second, first_draws, second_draws);
    let draws = first_draws + second_draws;
    assert(in_range(draws));
    assert(before.run(first + second, draws) == (after, head + tail));
}

/// The lines put one behind the other, with nothing in between.
pub open spec fn joined(lines: Seq<Seq<char>>) -> Seq<char>
    decreases lines.len(),
{
    if lines.len() == 0 {
        Seq::empty()
    } else {
        joined(lines.drop_last()) + lines.last()
    }
}

/// Converting line by line with one converter gives what converting the
/// joined lines as one text can give: the state goes on from line to line.
pub proof fn lemma_lines_as_one_text(
    before: Policy,
    lines: Seq<Seq<char>>,
    after: Policy,
    outs: Seq<Seq<char>>,
)
    requires
        converts_lines(before, lines, after, outs),
    ensures
        converts_text(before, joined(lines), after, joined(outs)),
{
    let states = choose|states: Seq<Policy>| #[trigger]
        threads_lines(states, lines, outs) && states.first() == before && states.last() == after;
    lemma_threaded_lines(states, lines, outs);
}

/// The induction behind `lemma_lines_as_one_text`.
proof fn lemma_threaded_lines(states: Seq<Policy>, lines: Seq<Seq<char>>, outs: Seq<Seq<char>>)
    requires
        threads_lines(states, lines, outs),
    ensures
        converts_text(states.first(), joined(lines), states.last(), joined(outs)),
    decreases lines.len(),
{
    if lines.len() == 0 {
        let none = Seq::<u16>::empty();
        assert(states.first().run(joined(lines), none) == (states.last(), joined(outs)));
        assert(in_range(none));
    } else {
        let n = lines.len() as int - 1;
        assert(threads_lines(states.drop_last(), lines.drop_last(), outs.drop_last())) by {
            assert forall|i: int| 0 <= i < lines.drop_last().len() implies converts_text(
                #[trigger] states.drop_last()[i],
                lines.drop_last()[i],
                states.drop_last()[i + 1],
                outs.drop_last()[i],
            ) by {
                assert(converts_text(states[i], lines[i], states[i + 1], outs[i]));
            }
        }
        lemma_threaded_lines(states.drop_last(), lines.drop_last(), outs.drop_last());
        assert(converts_text(states[n], lines[n], states[n + 1], outs[n]));
        lemma_texts_in_a_row(
            states.first(),
            joined(lines.drop_last()),
            states[n],
            joined(outs.drop_last()),
            lines.last(),
            states.last(),
            outs.last(),
        );
    }
}

/// Two policies of one kind draw for the same characters.
pub proof fn lemma_draws_needed_same_kind(one: Policy, other: Policy, s: Seq<char>)
    requires
        one is RandomFlip <==> other is RandomFlip,
    ensures
        one.draws_needed(s) == other.draws_needed(s),
    decreases s.len(),
{
    if s.len() > 0 {
        lemma_draws_needed_same_kind(one, other, s.drop_last());
    }
}

/// The threshold of a reachable state never passes the range of the draws
/// by a whole step, and a reachable state stays reachable whatever is drawn.
pub proof fn lemma_threshold_is_bounded(state: FlipState, draw: u16)
    requires
        state.wf(),
        draw < DRAW_RANGE,
    ensures
        state.after(draw).wf(),
        state.percent <= state.current <= 2 * DRAW_RANGE - 1,
        state.after(draw).current <= 2 * DRAW_RANGE - 1,
{
    let k = choose|k: nat| state.current == state.percent + #[trigger] (k * state.step_size());
    assert(k * state.step_size() >= 0) by (nonlinear_arith)
        requires
            k >= 0,
            state.step_size() >= 0,
    ;
    let next = state.after(draw);
    if state.flips(draw) {
        assert(next.current == next.percent + 0nat * next.step_size());
    } else {
        assert((k + 1) * state.step_size() == k * state.step_size() + state.step_size())
            by (nonlinear_arith);
        assert(next.current == next.percent + (k + 1) * next.step_size());
    }
}

/// Once the threshold has reached the range of the draws, the next letter
/// is flipped, whatever is drawn.
pub proof fn lemma_full_threshold_flips(state: FlipState, draw: u16)
    requires
        state.current >= DRAW_RANGE,
        draw < DRAW_RANGE,
    ensures
        state.flips(draw),
        state.after(draw).current == state.percent,
{
}

/// The state after `n` letters in a row that were not flipped.
pub open spec fn unflipped(state: FlipState, n: nat) -> FlipState
    decreases n,
{
    if n == 0 {
        state
    } else {
        unflipped(state, (n - 1) as nat).moved(false)
    }
}

/// After `n` letters in a row that were not flipped, the threshold has
/// grown by `n` steps.
pub proof fn lemma_unflipped_threshold(state: FlipState, n: nat)
    requires
        state.current + n * state.step_size() <= u16::MAX,
    ensures
        unflipped(state, n).current == state.current + n * state.step_size(),
        unflipped(state, n).percent == state.percent,
        unflipped(state, n).step == state.step,
    decreases n,
{
    if n > 0 {
        let m = (n - 1) as nat;
        assert(n * state.step_size() == m * state.step_size() + state.step_size())
            by (nonlinear_arith)
            requires
                n == m + 1,
        ;
        assert(m * state.step_size() >= 0) by (nonlinear_arith)
            requires
                m >= 0,
                state.step_size() >= 0,
        ;
        lemma_unflipped_threshold(state, m);
    } else {
        assert(n * state.step_size() == 0) by (nonlinear_arith)
            requires
                n == 0,
        ;
    }
}

/// With a step of at least one, at most a hundred letters in a row that
/// were not flipped bring the threshold to the range of the draws, and the
/// letter after them is flipped, whatever is drawn.
pub proof fn lemma_flip_is_due(state: FlipState, draw: u16)
    requires
        state.wf(),
        state.current < DRAW_RANGE,
        state.step_size() >= 1,
        draw < DRAW_RANGE,
    ensures
        exists|n: nat|
            n <= DRAW_RANGE && (#[trigger] unflipped(state, n)).current >= DRAW_RANGE && unflipped(
                state,
                n,
            ).flips(draw),
{
    lemma_flip_is_due_within(state, draw, DRAW_RANGE as nat);
}

/// The induction behind `lemma_flip_is_due`: a threshold that lacks at most
/// `budget` to the range of the draws gets there in at most `budget` letters.
proof fn lemma_flip_is_due_within(state: FlipState, draw: u16, budget: nat)
    requires
        state.step_size() >= 1,
        state.step_size() <= DRAW_RANGE,
        state.current + budget >= DRAW_RANGE,
        state.current < DRAW_RANGE,
        budget <= DRAW_RANGE,
        draw < DRAW_RANGE,
    ensures
        exists|n: nat|
            n <= budget && (#[trigger] unflipped(state, n)).current >= DRAW_RANGE && unflipped(
                state,
                n,
            ).flips(draw),
    decreases budget,
{
    let next = state.moved(false);
    assert(unflipped(state, 1) == next) by {
        assert(unflipped(state, 0) == state);
    }
    if next.current >= DRAW_RANGE {
        assert(unflipped(state, 1).flips(draw));
    } else {
        lemma_flip_is_due_within(next, draw, (budget - 1) as nat);
        let m = choose|m: nat|
            m <= budget - 1 && (#[trigger] unflipped(next, m)).current >= DRAW_RANGE && unflipped(
                next,
                m,
            ).flips(draw);
        lemma_unflipped_shift(state, m);
        assert(unflipped(state, m + 1) == unflipped(next, m));
    }
}

/// `n + 1` letters that were not flipped are one and then `n`.
proof fn lemma_unflipped_shift(state: FlipState, n: nat)
    ensures
        unflipped(state, n + 1) == unflipped(state.moved(false), n),
    decreases n,
{
    if n == 0 {
        assert(unflipped(state, 1) == unflipped(state, 0).moved(false));
        assert(unflipped(state, 0) == state);
        assert(unflipped(state.moved(false), 0) == state.moved(false));
    } else {
        lemma_unflipped_shift(state, (n - 1) as nat);
        assert(unflipped(state, n + 1) == unflipped(state, n).moved(false));
        assert(unflipped(state.moved(false), n) == unflipped(
            state.moved(false),
            (n - 1) as nat,
        ).moved(false));
    }
}

} // verus!
