//! The three policies without state: upper-casing, lower-casing and case
//! reversal.

use crate::convert::{Convertor, Policy};
use crate::unicode::{
    is_alpha, is_lower, is_upper, lowercase_form, to_lowercase, to_uppercase,
    uppercase_form,
};
use vstd::prelude::*;

verus! {

/// A policy that looks at nothing but the character before it.
#[derive(Clone, Copy, Debug, PartialEq, Eq, Structural)]
pub enum CasePolicy {
    /// Lower-case letters become upper-case.
    Uppercase,
    /// Upper-case letters become lower-case.
    Lowercase,
    /// Upper-case letters become lower-case, every other letter is upper-cased.
    Reverse,
}

impl CasePolicy {
    /// Whether the policy rewrites `c` at all.
    pub open spec fn eligible(self, c: char) -> bool {
        match self {
            CasePolicy::Uppercase => is_alpha(c) && is_lower(c),
            CasePolicy::Lowercase => is_alpha(c) && is_upper(c),
            CasePolicy::Reverse => is_alpha(c),
        }
    }

    /// What an eligible `c` is rewritten to.
    pub open spec fn transform(self, c: char) -> Seq<char> {
        match self {
            CasePolicy::Uppercase => uppercase_form(c),
            CasePolicy::Lowercase => lowercase_form(c),
            CasePolicy::Reverse => if is_upper(c) {
                lowercase_form(c)
            } else {
                uppercase_form(c)
            },
        }
    }

    /// The output for one character: its rewriting if it is eligible, the
    /// character itself if it is not.
    pub open spec fn form(self, c: char) -> Seq<char> {
        if self.eligible(c) {
            self.transform(c)
        } else {
            seq![c]
        }
    }

    /// The output for a text: the outputs of its characters, in order.
    pub open spec fn text(self, s: Seq<char>) -> Seq<char>
        decreases s.len(),
    {
        if s.len() == 0 {
            Seq::empty()
        } else {
            self.text(s.drop_last()) + self.form(s.last())
        }
    }
}

/// A converter for one of the policies without state. It can be used for
/// any number of characters and texts.
pub struct SimpleConvertor {
    policy: CasePolicy,
}

impl SimpleConvertor {
    fn new(policy: CasePolicy) -> (convertor: Self)
        ensures
            convertor.policy() == Policy::Fixed(policy),
    {
        SimpleConvertor { policy }
    }

    /// A converter that upper-cases lower-case letters.
    pub fn uppercase() -> (convertor: Self)
        ensures
            convertor.policy() == Policy::Fixed(CasePolicy::Uppercase),
    {
        Self::new(CasePolicy::Uppercase)
    }

    /// A converter that lower-cases upper-case letters.
    pub fn lowercase() -> (convertor: Self)
        ensures
            convertor.policy() == Policy::Fixed(CasePolicy::Lowercase),
    {
        Self::new(CasePolicy::Lowercase)
    }

    /// A converter that lower-cases upper-case letters and upper-cases all
    /// other letters.
    pub fn reverse() -> (convertor: Self)
        ensures
            convertor.policy() == Policy::Fixed(CasePolicy::Reverse),
    {
        Self::new(CasePolicy::Reverse)
    }

    /// Whether the policy rewrites `c`.
    fn filter(&self, c: char) -> (eligible: bool)
        ensures
            self.policy() matches Policy::Fixed(policy) && eligible == policy.eligible(c),
    {
        match self.policy {
            CasePolicy::Uppercase => c.is_alphabetic() && c.is_lowercase(),
            CasePolicy::Lowercase => c.is_alphabetic() && c.is_uppercase(),
            CasePolicy::Reverse => c.is_alphabetic(),
        }
    }

    /// What the policy rewrites `c` to.
    fn transform(&self, c: char) -> (form: Vec<char>)
        ensures
            self.policy() matches Policy::Fixed(policy) && form@ == policy.transform(c),
    {
        match self.policy {
            CasePolicy::Uppercase => to_uppercase(c),
            CasePolicy::Lowercase => to_lowercase(c),
            CasePolicy::Reverse => if c.is_uppercase() {
                to_lowercase(c)
            } else {
                to_uppercase(c)
            },
        }
    }
}

impl Convertor for SimpleConvertor {
    closed spec fn policy(&self) -> Policy {
        Policy::Fixed(self.policy)
    }

    fn convert_char(&mut self, c: char) -> (out: Vec<char>)
        ensures
            *final(self) == *old(self),
    {
        let out = if self.filter(c) {
            self.transform(c)
        } else {
            vec![c]
        };
        assert(self.policy().step(c, 0) == (self.policy(), out@));
        out
    }
}

} // verus!
