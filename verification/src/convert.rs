//! Converters and the policies they apply.
//!
//! A policy says what becomes of one character. Three policies have no
//! state. The fourth, random flipping, carries a threshold from letter to
//! letter and takes one number from a source of randomness for each letter;
//! what it does is fixed once those numbers are known. The contracts here
//! are therefore stated over the numbers drawn: a converter turns a text
//! into what its policy yields for some draws within range, one for each
//! letter, in the order of the letters.

pub mod lemmas;
pub mod random;
pub mod simple;

use crate::convert::random::{FlipState, RandomConvertor, DRAW_RANGE};
use crate::convert::simple::{CasePolicy, SimpleConvertor};
use crate::unicode::is_alpha;
use vstd::prelude::*;

verus! {

/// What a converter does, with the state it has reached.
#[derive(Clone, Copy, Debug, PartialEq, Eq, Structural)]
pub enum Policy {
    /// One of the policies without state.
    Fixed(CasePolicy),
    /// Random flipping, in the given state.
    RandomFlip(FlipState),
}

impl Policy {
    /// Whether the state is one that a run can reach.
    pub open spec fn wf(self) -> bool {
        self matches Policy::RandomFlip(state) ==> state.wf()
    }

    /// Whether `after` can come after this policy in a run: a policy without
    /// state stays as it is, and random flipping keeps its options.
    pub open spec fn leads_to(self, after: Policy) -> bool {
        match self {
            Policy::Fixed(_) => after == self,
            Policy::RandomFlip(state) => after matches Policy::RandomFlip(reached)
                && reached.percent == state.percent && reached.step == state.step,
        }
    }

    /// Whether a number is drawn for `c`.
    pub open spec fn needs_draw(self, c: char) -> bool {
        self is RandomFlip && is_alpha(c)
    }

    /// The policy after `c`, and the output for `c`, where `draw` is the
    /// number drawn for `c` if one is drawn.
    pub open spec fn step(self, c: char, draw: u16) -> (Policy, Seq<char>) {
        match self {
            Policy::Fixed(policy) => (self, policy.form(c)),
            Policy::RandomFlip(state) => if is_alpha(c) {
                (Policy::RandomFlip(state.after(draw)), state.form(c, draw))
            } else {
                (self, seq![c])
            },
        }
    }

    /// How many numbers are drawn for the text `s`.
    pub open spec fn draws_needed(self, s: Seq<char>) -> nat
        decreases s.len(),
    {
        if s.len() == 0 {
            0
        } else if self.needs_draw(s.last()) {
            self.draws_needed(s.drop_last()) + 1
        } else {
            self.draws_needed(s.drop_last())
        }
    }

    /// The policy after the text `s`, and the output for `s`, where `draws`
    /// holds the numbers drawn, in the order in which they were drawn.
    pub open spec fn run(self, s: Seq<char>, draws: Seq<u16>) -> (Policy, Seq<char>)
        decreases s.len(),
    {
        if s.len() == 0 {
            (self, Seq::empty())
        } else if self.needs_draw(s.last()) {
            let (before_last, output) = self.run(s.drop_last(), draws.drop_last());
            let (after, piece) = before_last.step(s.last(), draws.last());
            (after, output + piece)
        } else {
            let (before_last, output) = self.run(s.drop_last(), draws);
            let (after, piece) = before_last.step(s.last(), 0);
            (after, output + piece)
        }
    }
}

/// Whether every number in `draws` lies in the range of the draws.
pub open spec fn in_range(draws: Seq<u16>) -> bool {
    forall|i: int| 0 <= i < draws.len() ==> draws[i] < DRAW_RANGE
}

/// Whether converting `c` under `before` can give `out` and leave `after`.
pub open spec fn converts_char(before: Policy, c: char, after: Policy, out: Seq<char>) -> bool {
    exists|draw: u16| draw < DRAW_RANGE && #[trigger] before.step(c, draw) == (after, out)
}

/// Whether converting the text `s` under `before` can give `out` and leave
/// `after`.
pub open spec fn converts_text(before: Policy, s: Seq<char>, after: Policy, out: Seq<char>) -> bool {
    exists|draws: Seq<u16>|
        draws.len() == before.draws_needed(s) && in_range(draws) && #[trigger] before.run(
            s,
            draws,
        ) == (after, out)
}

/// Whether `states` are the states of one run over the lines that gives
/// `outs`: each line is converted from the state that the line before it
/// left.
pub open spec fn threads_lines(
    states: Seq<Policy>,
    lines: Seq<Seq<char>>,
    outs: Seq<Seq<char>>,
) -> bool {
    &&& states.len() == lines.len() + 1
    &&& outs.len() == lines.len()
    &&& forall|i: int|
        0 <= i < lines.len() ==> converts_text(
            #[trigger] states[i],
            lines[i],
            states[i + 1],
            outs[i],
        )
}

/// Whether converting the lines one after the other under `before`, each
/// from the state that the line before it left, can give `outs` and leave
/// `after`.
pub open spec fn converts_lines(
    before: Policy,
    lines: Seq<Seq<char>>,
    after: Policy,
    outs: Seq<Seq<char>>,
) -> bool {
    exists|states: Seq<Policy>| #[trigger]
        threads_lines(states, lines, outs) && states.first() == before && states.last() == after
}

/// Something that converts text, character by character.
pub trait Convertor {
    /// The policy that is applied, with the state it has reached.
    spec fn policy(&self) -> Policy;

    /// Converts one character.
    ///
    /// A character that is no letter comes back as it is and leaves the
    /// policy as it was. Under a policy without state the output is the
    /// policy's form of the character, and the policy stays. Under random
    /// flipping the output and the next state are those for some draw
    /// within range.
    fn convert_char(&mut self, c: char) -> (out: Vec<char>)
        requires
            old(self).policy().wf(),
        ensures
            final(self).policy().wf(),
            old(self).policy().leads_to(final(self).policy()),
            converts_char(old(self).policy(), c, final(self).policy(), out@),
            !is_alpha(c) ==> out@ == seq![c] && final(self).policy() == old(self).policy(),
            old(self).policy() matches Policy::Fixed(policy) ==> out@ == policy.form(c),
    ;

    /// Converts a text: every character in order, the outputs joined in that
    /// order.
    ///
    /// An empty text gives an empty output and leaves the policy as it was.
    /// Under a policy without state the output is the policy's text, and
    /// the policy stays. Under random flipping the output and the state
    /// reached are those for some draws within range, one for each letter.
    fn convert(&mut self, s: String) -> (out: String)
        requires
            old(self).policy().wf(),
        ensures
            final(self).policy().wf(),
            old(self).policy().leads_to(final(self).policy()),
            converts_text(old(self).policy(), s@, final(self).policy(), out@),
            s@.len() == 0 ==> out@.len() == 0 && final(self).policy() == old(self).policy(),
            old(self).policy() matches Policy::Fixed(policy) ==> out@ == policy.text(s@),
    {
        let mut out = String::new();
        let ghost mut draws: Seq<u16> = Seq::empty();
        for c in chars: s.as_str().chars()
            invariant
                chars.seq() == s@,
                self.policy().wf(),
                in_range(draws),
                draws.len() == old(self).policy().draws_needed(s@.take(chars.index() as int)),
                (self.policy(), out@) == old(self).policy().run(
                    s@.take(chars.index() as int),
                    draws,
                ),
        {
            let ghost before = self.policy();
            let ghost joined = out@;
            let ghost done = s@.take(chars.index() as int);
            let piece = self.convert_char(c);
            let mut j: usize = 0;
            while j < piece.len()
                invariant
                    0 <= j <= piece.len(),
                    out@ == joined + piece@.take(j as int),
                decreases piece.len() - j,
            {
                out.push(piece[j]);
                j += 1;
            }
            proof {
                let next = s@.take(chars.index() + 1);
                let draw = choose|draw: u16|
                    draw < DRAW_RANGE && #[trigger] before.step(c, draw) == (
                        self.policy(),
                        piece@,
                    );
                assert(piece@.take(piece@.len() as int) == piece@);
                assert(next.drop_last() == done);
                assert(next.last() == c);
                lemma_run_keeps_kind(old(self).policy(), done, draws);
                if old(self).policy().needs_draw(c) {
                    assert(draws.push(draw).drop_last() == draws);
                    draws = draws.push(draw);
                }
            }
        }
        proof {
            assert(s@.take(s@.len() as int) == s@);
            lemma_run_keeps_kind(old(self).policy(), s@, draws);
            if let Policy::Fixed(policy) = old(self).policy() {
                lemma_fixed_run(policy, s@, draws);
            }
        }
        out
    }
}

/// A converter for whichever policy was chosen at run time.
pub enum AnyConvertor {
    /// A converter for a policy without state.
    Simple(SimpleConvertor),
    /// A converter that flips at random.
    Random(RandomConvertor),
}

impl Convertor for AnyConvertor {
    open spec fn policy(&self) -> Policy {
        match self {
            AnyConvertor::Simple(convertor) => convertor.policy(),
            AnyConvertor::Random(convertor) => convertor.policy(),
        }
    }

    fn convert_char(&mut self, c: char) -> (out: Vec<char>) {
        match self {
            AnyConvertor::Simple(convertor) => convertor.convert_char(c),
            AnyConvertor::Random(convertor) => convertor.convert_char(c),
        }
    }
}

/// Under a policy without state the draws do not matter: the policy stays as
/// it is, and the output is the policy's text.
pub proof fn lemma_fixed_run(policy: CasePolicy, s: Seq<char>, draws: Seq<u16>)
    ensures
        Policy::Fixed(policy).run(s, draws) == (Policy::Fixed(policy), policy.text(s)),
    decreases s.len(),
{
    if s.len() > 0 {
        lemma_fixed_run(policy, s.drop_last(), draws);
    }
}

/// A run never turns one kind of policy into another: a policy without state
/// stays as it is, and random flipping keeps its options.
pub proof fn lemma_run_keeps_kind(policy: Policy, s: Seq<char>, draws: Seq<u16>)
    ensures
        policy.leads_to(policy.run(s, draws).0),
    decreases s.len(),
{
    if s.len() > 0 {
        if policy.needs_draw(s.last()) {
            lemma_run_keeps_kind(policy, s.drop_last(), draws.drop_last());
        } else {
            lemma_run_keeps_kind(policy, s.drop_last(), draws);
        }
    }
}

} // verus!
