//! Random flipping with momentum.
//!
//! Every letter is flipped with a probability that starts at a base
//! percentage, grows by a step after each letter that was not flipped, and
//! falls back to the base when a letter is flipped.

use crate::convert::{Convertor, Policy};
use crate::unicode::{
    is_alpha, is_lower, is_upper, lowercase_form, to_lowercase, to_uppercase,
    uppercase_form,
};
use rand::rngs::mock::StepRng;
use rand::rngs::ThreadRng;
use rand::{Rng, RngCore};
use vstd::prelude::*;

verus! {

/// Draws lie in `0..DRAW_RANGE`.
pub const DRAW_RANGE: u16 = 100;

/// The largest base percentage, and the largest step.
pub const MAX_PERCENT: u8 = 100;

/// Options that no converter can be built from: a percentage or a step
/// above `MAX_PERCENT`.
#[derive(Clone, Copy, Debug, PartialEq, Eq, Structural)]
pub struct InvalidConfiguration {
    /// The base percentage that was asked for.
    pub percent: u8,
    /// The step that was asked for.
    pub step: Option<u8>,
}

/// Whether a converter can be built from these options.
pub open spec fn valid_options(percent: u8, step: Option<u8>) -> bool {
    &&& percent <= MAX_PERCENT
    &&& step matches Some(s) ==> s <= MAX_PERCENT
}

/// The run state of random flipping.
#[derive(Clone, Copy, Debug, PartialEq, Eq, Structural)]
pub struct FlipState {
    /// The threshold right after a flip, in percent.
    pub percent: u8,
    /// How much the threshold grows after a letter that was not flipped.
    pub step: Option<u8>,
    /// Whether the last letter was flipped.
    pub flipped: bool,
    /// The threshold the next draw is held against.
    pub current: u16,
}

impl FlipState {
    /// The state a run starts in.
    pub open spec fn initial(percent: u8, step: Option<u8>) -> FlipState {
        FlipState { percent, step, flipped: false, current: percent as u16 }
    }

    /// The growth of the threshold after a letter that was not flipped.
    pub open spec fn step_size(self) -> u16 {
        match self.step {
            Some(s) => s as u16,
            None => 0,
        }
    }

    /// What holds of every state that a run can reach.
    ///
    /// The threshold is the base percentage plus a whole number of steps. It
    /// is the base percentage itself right after a flip, and it has
    /// outgrown `DRAW_RANGE` by less than one step.
    pub open spec fn wf(self) -> bool {
        &&& valid_options(self.percent, self.step)
        &&& exists|k: nat| self.current == self.percent + #[trigger] (k * self.step_size())
        &&& self.current == self.percent || self.current < DRAW_RANGE + self.step_size()
        &&& self.flipped ==> self.current == self.percent
    }

    /// Whether a letter is flipped when `draw` comes up.
    pub open spec fn flips(self, draw: u16) -> bool {
        draw < self.current
    }

    /// The state after a letter that was flipped, or was not: the threshold
    /// falls back to the base percentage after a flip, and grows by one step
    /// otherwise.
    pub open spec fn moved(self, flipped: bool) -> FlipState {
        if flipped {
            FlipState { flipped: true, current: self.percent as u16, ..self }
        } else {
            FlipState {
                flipped: false,
                current: (self.current + self.step_size()) as u16,
                ..self
            }
        }
    }

    /// The state after a letter for which `draw` came up.
    pub open spec fn after(self, draw: u16) -> FlipState {
        self.moved(self.flips(draw))
    }

    /// The output for the letter `c` when `draw` comes up: flipped, a
    /// lower-case letter is upper-cased; not flipped, an upper-case letter is
    /// lower-cased; any other letter stays as it is.
    pub open spec fn form(self, c: char, draw: u16) -> Seq<char> {
        if self.flips(draw) {
            if is_lower(c) {
                uppercase_form(c)
            } else {
                seq![c]
            }
        } else {
            if is_upper(c) {
                lowercase_form(c)
            } else {
                seq![c]
            }
        }
    }

    /// Checks the options and starts a run.
    pub fn new(percent: u8, step: Option<u8>) -> (r: Result<FlipState, InvalidConfiguration>)
        ensures
            match r {
                Ok(state) => valid_options(percent, step) && state == FlipState::initial(
                    percent,
                    step,
                ) && state.wf(),
                Err(e) => !valid_options(percent, step) && e == (InvalidConfiguration {
                    percent,
                    step,
                }),
            },
    {
        let step_fits = match step {
            Some(s) => s <= MAX_PERCENT,
            None => true,
        };
        if percent <= MAX_PERCENT && step_fits {
            let state = FlipState { percent, step, flipped: false, current: percent as u16 };
            assert(state.current == state.percent + 0nat * state.step_size());
            Ok(state)
        } else {
            Err(InvalidConfiguration { percent, step })
        }
    }

    /// The threshold that the next draw is held against.
    fn current(&self) -> (threshold: u16)
        ensures
            threshold == self.current,
    {
        self.current
    }

    /// Records whether the last letter was flipped and moves the threshold.
    /// A letter can only have escaped a flip while the threshold was within
    /// the range of the draws.
    fn flip(&mut self, flipped: bool)
        requires
            old(self).wf(),
            !flipped ==> old(self).current < DRAW_RANGE,
        ensures
            *final(self) == old(self).moved(flipped),
            final(self).wf(),
    {
        let ghost k = choose|k: nat| self.current == self.percent + #[trigger] (k * self.step_size());
        self.flipped = flipped;
        if flipped {
            self.current = self.percent as u16;
            assert(self.current == self.percent + 0nat * self.step_size());
        } else {
            match self.step {
                Some(step) => {
                    self.current = self.current + step as u16;
                    assert((k + 1) * self.step_size() == k * self.step_size() + self.step_size())
                        by (nonlinear_arith);
                    assert(self.current == self.percent + (k + 1) * self.step_size());
                },
                None => {
                    assert(self.current == self.percent + k * self.step_size());
                },
            }
        }
    }

    /// Holds `draw` against the threshold, moves the threshold, and tells
    /// whether the letter is to be flipped.
    pub fn decide(&mut self, draw: u16) -> (flipped: bool)
        requires
            old(self).wf(),
            draw < DRAW_RANGE,
        ensures
            flipped == old(self).flips(draw),
            *final(self) == old(self).after(draw),
            final(self).wf(),
    {
        let flipped = draw < self.current();
        self.flip(flipped);
        flipped
    }

    /// Converts the letter `c` with the draw that was taken for it.
    fn flip_letter(&mut self, c: char, draw: u16) -> (out: Vec<char>)
        requires
            old(self).wf(),
            draw < DRAW_RANGE,
        ensures
            out@ == old(self).form(c, draw),
            *final(self) == old(self).after(draw),
            final(self).wf(),
    {
        if self.decide(draw) {
            if c.is_lowercase() {
                to_uppercase(c)
            } else {
                vec![c]
            }
        } else {
            if c.is_uppercase() {
                to_lowercase(c)
            } else {
                vec![c]
            }
        }
    }

    /// Converts one character as random flipping does when `draw` is the
    /// number drawn for it. A character that is no letter passes through,
    /// and neither the draw nor the state matters to it.
    pub fn convert_char(&mut self, c: char, draw: u16) -> (out: Vec<char>)
        requires
            old(self).wf(),
            draw < DRAW_RANGE,
        ensures
            is_alpha(c) ==> out@ == old(self).form(c, draw) && *final(self) == old(self).after(
                draw,
            ),
            !is_alpha(c) ==> out@ == seq![c] && *final(self) == *old(self),
            final(self).wf(),
    {
        if c.is_alphabetic() {
            self.flip_letter(c, draw)
        } else {
            vec![c]
        }
    }
}

/// The generator that `rand` keeps for each thread. Nothing in it is visible
/// here.
#[verifier::external_type_specification]
#[verifier::external_body]
pub struct ExThreadRng(ThreadRng);

/// The generator of `rand` that counts up from a start by a fixed increment.
/// Nothing in it is visible here.
#[verifier::external_type_specification]
#[verifier::external_body]
pub struct ExStepRng(StepRng);

/// `rand::thread_rng` hands out the generator of the current thread, which
/// is seeded from the operating system when the thread first asks for it.
/// Nothing is assumed of it.
pub assume_specification[ rand::thread_rng ]() -> ThreadRng;

/// Takes a `u16` from `rng` with `Rng::gen`. Nothing is assumed of the
/// number: two calls may give any two numbers.
#[verifier::external_body]
fn gen_u16<R: RngCore>(rng: &mut R) -> u16 {
    rng.gen::<u16>()
}

/// Where the random numbers come from.
pub trait RandomSource {
    /// The next number. Any `u16` may come.
    fn draw(&mut self) -> u16;
}

impl RandomSource for ThreadRng {
    fn draw(&mut self) -> u16 {
        gen_u16(self)
    }
}

impl RandomSource for StepRng {
    fn draw(&mut self) -> u16 {
        gen_u16(self)
    }
}

/// The draw that a number from a source stands for: what is left of it
/// when it is divided by `DRAW_RANGE`.
pub open spec fn reduced(raw: u16) -> u16 {
    raw % DRAW_RANGE
}

/// Brings a number from a source into the range of the draws.
pub fn reduce(raw: u16) -> (draw: u16)
    ensures
        draw == reduced(raw),
        draw < DRAW_RANGE,
{
    raw % DRAW_RANGE
}

/// A converter that flips letters at random, with momentum. One converter
/// serves one run: its state goes on from text to text.
pub struct RandomConvertor {
    rng: Box<dyn RandomSource>,
    state: FlipState,
}

impl RandomConvertor {
    /// A converter that draws from `rng`, or the options back if they are
    /// not valid.
    pub fn with_rng(rng: Box<dyn RandomSource>, percent: u8, step: Option<u8>) -> (r: Result<
        RandomConvertor,
        InvalidConfiguration,
    >)
        ensures
            match r {
                Ok(convertor) => valid_options(percent, step) && convertor.policy()
                    == Policy::RandomFlip(FlipState::initial(percent, step))
                    && convertor.policy().wf(),
                Err(e) => !valid_options(percent, step) && e == (InvalidConfiguration {
                    percent,
                    step,
                }),
            },
    {
        match FlipState::new(percent, step) {
            Ok(state) => Ok(RandomConvertor { rng, state }),
            Err(e) => Err(e),
        }
    }

    /// A converter that draws from the generator of the current thread, or
    /// the options back if they are not valid.
    pub fn new(percent: u8, step: Option<u8>) -> (r: Result<RandomConvertor, InvalidConfiguration>)
        ensures
            match r {
                Ok(convertor) => valid_options(percent, step) && convertor.policy()
                    == Policy::RandomFlip(FlipState::initial(percent, step))
                    && convertor.policy().wf(),
                Err(e) => !valid_options(percent, step) && e == (InvalidConfiguration {
                    percent,
                    step,
                }),
            },
    {
        let rng: Box<dyn RandomSource> = Box::new(rand::thread_rng());
        RandomConvertor::with_rng(rng, percent, step)
    }

    /// The state that the run has reached.
    pub fn state(&self) -> (state: FlipState)
        ensures
            self.policy() == Policy::RandomFlip(state),
    {
        self.state
    }

    /// Draws the number for the next letter: whatever the source gives,
    /// brought into the range of the draws.
    fn rng(&mut self) -> (draw: u16)
        ensures
            draw < DRAW_RANGE,
            final(self).state == old(self).state,
    {
        let raw: u16 = self.rng.draw();
        reduce(raw)
    }
}

impl Convertor for RandomConvertor {
    closed spec fn policy(&self) -> Policy {
        Policy::RandomFlip(self.state)
    }

    /// A character that is no letter leaves the whole converter as it was:
    /// no number is drawn for it.
    fn convert_char(&mut self, c: char) -> (out: Vec<char>)
        ensures
            !is_alpha(c) ==> *final(self) == *old(self),
    {
        if c.is_alphabetic() {
            let draw: u16 = self.rng();
            let out = self.state.flip_letter(c, draw);
            assert(old(self).policy().step(c, draw) == (self.policy(), out@));
            out
        } else {
            let out = vec![c];
            assert(old(self).policy().step(c, 0) == (self.policy(), out@));
            out
        }
    }
}

} // verus!
