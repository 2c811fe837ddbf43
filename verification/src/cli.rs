//! What a command line asks for, and what follows from it.
//!
//! Reading the arguments, the input and writing the output is left to the
//! program around this library. Here is what is decided in between: which
//! conversion the flags select, where the text comes from and where it goes,
//! and what the lines of the input become.

use crate::convert::random::{valid_options, FlipState, InvalidConfiguration, RandomConvertor};
use crate::convert::simple::{CasePolicy, SimpleConvertor};
use crate::convert::{converts_lines, threads_lines, AnyConvertor, Convertor, Policy};
use std::path::PathBuf;
use vstd::prelude::*;

verus! {

/// The step that is taken where one is asked for and none is given.
pub const DEFAULT_STEP: u8 = 20;

/// A path in the file system. Nothing in it is visible here.
#[verifier::external_type_specification]
#[verifier::external_body]
pub struct ExPathBuf(PathBuf);

/// The conversion that the flags select, with its options.
#[derive(Clone, Copy, Debug, PartialEq, Eq, Structural)]
pub enum Conversion {
    /// Upper-case the text.
    Uppercase,
    /// Lower-case the text.
    Lowercase,
    /// Reverse the case of the text.
    Reverse,
    /// Flip letters at random, from the given percentage and with the given
    /// step.
    Random(u8, Option<u8>),
}

impl Conversion {
    /// Whether a converter can be built for the conversion.
    pub open spec fn valid(self) -> bool {
        self matches Conversion::Random(percent, step) ==> valid_options(percent, step)
    }

    /// The policy that a converter for the conversion starts with.
    pub open spec fn policy(self) -> Policy {
        match self {
            Conversion::Uppercase => Policy::Fixed(CasePolicy::Uppercase),
            Conversion::Lowercase => Policy::Fixed(CasePolicy::Lowercase),
            Conversion::Reverse => Policy::Fixed(CasePolicy::Reverse),
            Conversion::Random(percent, step) => Policy::RandomFlip(
                FlipState::initial(percent, step),
            ),
        }
    }
}

/// The texts that the lines hold.
pub open spec fn texts(lines: Seq<String>) -> Seq<Seq<char>> {
    lines.map_values(|line: String| line@)
}

/// Where the text comes from.
pub enum Input<'a> {
    /// The text was given on the command line.
    Content(&'a String),
    /// The text is in a file.
    File(&'a PathBuf),
    /// The text comes on standard input.
    Stdin,
}

/// Where the converted text goes.
pub enum Output<'a> {
    /// Into a file.
    File(&'a PathBuf),
    /// To standard output.
    Stdout,
}

/// What the command line asked for.
pub struct Cli {
    /// The file to read, if any.
    pub input: Option<PathBuf>,
    /// The file to write, if any.
    pub output: Option<PathBuf>,
    /// The chance of a random flip, in percent.
    pub percent: u8,
    /// Whether the chance grows after a letter that was not flipped, and by
    /// how much, if that was said.
    pub step: Option<Option<u8>>,
    /// The text to convert, if it was given on the command line.
    pub content: Option<String>,
    /// Upper-case the text.
    pub uppercase: bool,
    /// Lower-case the text.
    pub lowercase: bool,
    /// Reverse the case of the text.
    pub reverse: bool,
    /// Flip letters at random.
    pub angry: bool,
}

impl Cli {
    /// The step that the command line asks for: none, the default, or the
    /// one it names.
    pub open spec fn chosen_step(self) -> Option<u8> {
        match self.step {
            None => None,
            Some(None) => Some(DEFAULT_STEP),
            Some(Some(step)) => Some(step),
        }
    }

    /// The conversion that the flags select: the first that is set of
    /// upper-casing, lower-casing and reversal, and random flipping
    /// otherwise.
    pub open spec fn chosen_conversion(self) -> Conversion {
        if self.uppercase {
            Conversion::Uppercase
        } else if self.lowercase {
            Conversion::Lowercase
        } else if self.reverse {
            Conversion::Reverse
        } else {
            Conversion::Random(self.percent, self.chosen_step())
        }
    }

    /// The conversion that the flags select.
    pub fn conversion(&self) -> (conversion: Conversion)
        ensures
            conversion == self.chosen_conversion(),
    {
        if self.uppercase {
            Conversion::Uppercase
        } else if self.lowercase {
            Conversion::Lowercase
        } else if self.reverse {
            Conversion::Reverse
        } else {
            let step = match self.step {
                None => None,
                Some(None) => Some(DEFAULT_STEP),
                Some(Some(step)) => Some(step),
            };
            Conversion::Random(self.percent, step)
        }
    }

    /// A converter for the conversion that the flags select, or the options
    /// of random flipping back if they are not valid.
    pub fn convertor(&self) -> (r: Result<AnyConvertor, InvalidConfiguration>)
        ensures
            match r {
                Ok(convertor) => self.chosen_conversion().valid() && convertor.policy()
                    == self.chosen_conversion().policy() && convertor.policy().wf(),
                Err(e) => self.chosen_conversion() matches Conversion::Random(percent, step)
                    && !valid_options(percent, step) && e == (InvalidConfiguration {
                    percent,
                    step,
                }),
            },
    {
        match self.conversion() {
            Conversion::Uppercase => Ok(AnyConvertor::Simple(SimpleConvertor::uppercase())),
            Conversion::Lowercase => Ok(AnyConvertor::Simple(SimpleConvertor::lowercase())),
            Conversion::Reverse => Ok(AnyConvertor::Simple(SimpleConvertor::reverse())),
            Conversion::Random(percent, step) => match RandomConvertor::new(percent, step) {
                Ok(convertor) => Ok(AnyConvertor::Random(convertor)),
                Err(e) => Err(e),
            },
        }
    }

    /// Where the text comes from: the command line if it holds the text,
    /// else the input file if one is named, else standard input.
    pub fn input(&self) -> (input: Input<'_>)
        ensures
            match input {
                Input::Content(content) => self.content == Some(*content),
                Input::File(path) => self.content is None && self.input == Some(*path),
                Input::Stdin => self.content is None && self.input is None,
            },
    {
        if let Some(content) = &self.content {
            Input::Content(content)
        } else if let Some(path) = &self.input {
            Input::File(path)
        } else {
            Input::Stdin
        }
    }

    /// Where the converted text goes: into the output file if one is named,
    /// else to standard output.
    pub fn output(&self) -> (output: Output<'_>)
        ensures
            match output {
                Output::File(path) => self.output == Some(*path),
                Output::Stdout => self.output is None,
            },
    {
        if let Some(path) = &self.output {
            Output::File(path)
        } else {
            Output::Stdout
        }
    }

    /// Converts the lines of the input with `convertor`, one after the
    /// other: the state that one line leaves is the state that the next
    /// line starts from.
    fn _convert(&self, convertor: AnyConvertor, input: Vec<String>) -> (output: Vec<String>)
        requires
            convertor.policy().wf(),
        ensures
            output.len() == input.len(),
            exists|after: Policy| #[trigger]
                converts_lines(convertor.policy(), texts(input@), after, texts(output@)),
            convertor.policy() matches Policy::Fixed(policy) ==> forall|i: int|
                0 <= i < input.len() ==> (#[trigger] output[i])@ == policy.text(input[i]@),
    {
        let ghost start = convertor.policy();
        let ghost mut states: Seq<Policy> = seq![start];
        let mut convertor = convertor;
        let mut output: Vec<String> = Vec::new();
        for i in 0..input.len()
            invariant
                convertor.policy().wf(),
                output.len() == i,
                threads_lines(states, texts(input@.take(i as int)), texts(output@)),
                states.first() == start,
                states.last() == convertor.policy(),
                start matches Policy::Fixed(policy) ==> convertor.policy() == start && forall|j: int|
                    0 <= j < i ==> (#[trigger] output[j])@ == policy.text(input[j]@),
        {
            let line = convertor.convert(input[i].clone());
            output.push(line);
            proof {
                states = states.push(convertor.policy());
            }
        }
        proof {
            assert(input@.take(input.len() as int) == input@);
            assert(converts_lines(start, texts(input@), states.last(), texts(output@)));
        }
        output
    }

    /// Converts the lines of the input as the command line asks, or gives
    /// the options of random flipping back if they are not valid.
    ///
    /// One converter serves all the lines, so random flipping carries its
    /// threshold from one line to the next.
    pub fn convert(&self, input: Vec<String>) -> (r: Result<Vec<String>, InvalidConfiguration>)
        ensures
            match r {
                Ok(output) => {
                    &&& self.chosen_conversion().valid()
                    &&& output.len() == input.len()
                    &&& exists|after: Policy| #[trigger]
                        converts_lines(
                            self.chosen_conversion().policy(),
                            texts(input@),
                            after,
                            texts(output@),
                        )
                    &&& self.chosen_conversion().policy() matches Policy::Fixed(policy)
                        ==> forall|i: int|
                        0 <= i < input.len() ==> (#[trigger] output[i])@ == policy.text(input[i]@)
                },
                Err(e) => self.chosen_conversion() matches Conversion::Random(percent, step)
                    && !valid_options(percent, step) && e == (InvalidConfiguration {
                    percent,
                    step,
                }),
            },
    {
        match self.convertor() {
            Ok(convertor) => {
                let ghost start = convertor.policy();
                let output = self._convert(convertor, input);
                assert(start matches Policy::Fixed(policy) ==> forall|i: int|
                    0 <= i < input.len() ==> (#[trigger] output[i])@ == policy.text(input[i]@));
                Ok(output)
            },
            Err(e) => Err(e),
        }
    }
}

/// Why a text is no percentage.
#[derive(Clone, Copy, Debug, PartialEq, Eq, Structural)]
pub enum PercentError {
    /// The text is not a decimal number that fits in a `u8`.
    NotANumber,
    /// The number lies above 100.
    OutOfRange(u8),
}

/// Whether `c` is one of the ten decimal digits.
pub open spec fn is_digit(c: char) -> bool {
    '0' <= c <= '9'
}

/// The number that a decimal digit stands for.
pub open spec fn digit_value(c: char) -> nat {
    (c as u32 - '0' as u32) as nat
}

/// Whether `s` holds decimal digits only.
pub open spec fn all_digits(s: Seq<char>) -> bool {
    forall|i: int| 0 <= i < s.len() ==> is_digit(#[trigger] s[i])
}

/// The number that a sequence of decimal digits stands for.
pub open spec fn decimal_value(digits: Seq<char>) -> nat
    decreases digits.len(),
{
    if digits.len() == 0 {
        0
    } else {
        decimal_value(digits.drop_last()) * 10 + digit_value(digits.last())
    }
}

/// Where the digits of a number start: behind a plus sign, if there is one.
pub open spec fn digits_start(s: Seq<char>) -> int {
    if s.len() > 0 && s[0] == '+' {
        1
    } else {
        0
    }
}

/// The `u8` that `s` is the decimal notation of: an optional plus sign and
/// then one or more digits, nothing else, for a number of at most 255.
pub open spec fn parsed_u8(s: Seq<char>) -> Option<u8> {
    let digits = s.skip(digits_start(s));
    if digits.len() > 0 && all_digits(digits) && decimal_value(digits) <= u8::MAX {
        Some(decimal_value(digits) as u8)
    } else {
        None
    }
}

/// The percentage that `s` is the decimal notation of.
pub open spec fn parsed_percent(s: Seq<char>) -> Result<u8, PercentError> {
    match parsed_u8(s) {
        None => Err(PercentError::NotANumber),
        Some(percent) => if percent > 100 {
            Err(PercentError::OutOfRange(percent))
        } else {
            Ok(percent)
        },
    }
}

/// A number never gets smaller when digits are put behind it.
proof fn lemma_decimal_value_grows(digits: Seq<char>, n: int)
    requires
        0 <= n <= digits.len(),
    ensures
        decimal_value(digits.take(n)) <= decimal_value(digits),
    decreases digits.len() - n,
{
    if n < digits.len() {
        lemma_decimal_value_grows(digits.drop_last(), n);
        assert(digits.drop_last().take(n) == digits.take(n));
    } else {
        assert(digits.take(n) == digits);
    }
}

/// Reads a `u8` in decimal notation.
fn parse_u8(s: &str) -> (r: Option<u8>)
    ensures
        r == parsed_u8(s@),
{
    let mut value: u16 = 0;
    let mut at_start = true;
    let mut any_digit = false;
    let ghost start = digits_start(s@);
    let ghost digits = s@.skip(start);
    for c in chars: s.chars()
        invariant
            chars.seq() == s@,
            start == digits_start(s@),
            digits == s@.skip(start),
            at_start <==> chars.index() == 0,
            !at_start ==> start <= chars.index(),
            any_digit <==> chars.index() > start,
            at_start ==> value == 0,
            !at_start ==> all_digits(digits.take(chars.index() - start)),
            !at_start ==> value == decimal_value(digits.take(chars.index() - start)),
            value <= u8::MAX,
    {
        let ghost n = chars.index() - start;
        if at_start && c == '+' {
            at_start = false;
        } else {
            proof {
                assert(digits.take(0) =~= Seq::<char>::empty());
                assert(digits.take(n + 1).drop_last() == digits.take(n));
                assert(digits.take(n + 1).last() == c);
            }
            at_start = false;
            if '0' <= c && c <= '9' {
                let digit: u16 = (c as u8 - 48u8) as u16;
                value = value * 10 + digit;
                if value > 255 {
                    proof {
                        lemma_decimal_value_grows(digits, n + 1);
                    }
                    return None;
                }
                any_digit = true;
            } else {
                assert(!is_digit(digits[n]));
                return None;
            }
        }
    }
    proof {
        assert(digits.take(digits.len() as int) == digits);
    }
    if any_digit {
        Some(value as u8)
    } else {
        None
    }
}

/// Reads a percentage in decimal notation: a number from 0 to 100.
pub fn parse_percent(s: &str) -> (r: Result<u8, PercentError>)
    ensures
        r == parsed_percent(s@),
{
    match parse_u8(s) {
        None => Err(PercentError::NotANumber),
        Some(percent) => if percent > 100 {
            Err(PercentError::OutOfRange(percent))
        } else {
            Ok(percent)
        },
    }
}

} // verus!
