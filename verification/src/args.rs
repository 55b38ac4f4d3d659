//! The argument cursor.
//!
//! A command handler builds one [`Args`] from the raw argument text of a
//! message, then repeatedly extracts the next token and converts it into a
//! typed value. Every extraction either strictly shrinks the remaining text
//! or leaves it unchanged and reports why; failures split into exactly three
//! kinds, so the command layer can react without inspecting their insides.

use crate::arg_parser::{Outcome, Recognition, is_arg_space, lemma_quote_encode_round_trip,
    lemma_tokens_in_order, lemma_whole_input_is_one_token, quote_encode, single_arg,
    single_quoted_arg, spec_single_arg, spec_single_quoted_arg};
use crate::text::{ParseNumberError, parse_u64, spec_parse_u64};
use vstd::prelude::*;

verus! {

/// Why an extraction failed.
#[derive(Debug)]
pub enum Error<E> {
    /// The token was recognized but is not a valid literal for the requested
    /// type; carries the type's own conversion error.
    Parse(E),
    /// An extraction was attempted but no characters remain. Recoverable:
    /// the cursor is left untouched.
    Empty,
    /// The remaining text does not match the requested token grammar.
    ArgParse,
}

impl<E> From<E> for Error<E> {
    fn from(e: E) -> (r: Self) {
        Error::Parse(e)
    }
}

impl<E> vstd::std_specs::convert::FromSpecImpl<E> for Error<E> {
    open spec fn obeys_from_spec() -> bool {
        true
    }

    open spec fn from_spec(e: E) -> Self {
        Error::Parse(e)
    }
}

/// A type an argument token can be converted into, by its canonical textual
/// parse rule.
pub trait FromArg: Sized {
    /// The type's own conversion error.
    type Err;

    /// Whether conversion of this token text succeeds.
    spec fn arg_ok(s: Seq<char>) -> bool;

    /// How a converted value relates to the token text it came from.
    spec fn arg_value(s: Seq<char>, v: Self) -> bool;

    fn from_arg(s: &str) -> (r: Result<Self, Self::Err>)
        ensures
            match r {
                Ok(v) => Self::arg_ok(s@) && Self::arg_value(s@, v),
                Err(_) => !Self::arg_ok(s@),
            },
    ;
}

impl FromArg for String {
    type Err = ParseNumberError;

    /// Conversion to a string always succeeds and copies the token exactly.
    open spec fn arg_ok(s: Seq<char>) -> bool {
        true
    }

    open spec fn arg_value(s: Seq<char>, v: Self) -> bool {
        v@ == s
    }

    fn from_arg(s: &str) -> (r: Result<Self, Self::Err>) {
        Ok(s.to_owned())
    }
}

impl FromArg for u64 {
    type Err = ParseNumberError;

    /// Conversion succeeds exactly on the decimal spelling of a `u64`.
    open spec fn arg_ok(s: Seq<char>) -> bool {
        spec_parse_u64(s) is Some
    }

    open spec fn arg_value(s: Seq<char>, v: Self) -> bool {
        spec_parse_u64(s) == Some(v as int)
    }

    fn from_arg(s: &str) -> (r: Result<Self, Self::Err>) {
        parse_u64(s)
    }
}

/// What one extraction call does: how the result `r` and the remaining text
/// `after` relate to the text `before` the call and the grammar's `outcome`
/// on it.
///
/// On a recognized token the cursor advances past the token and its
/// separator whether or not the conversion succeeds; a conversion failure
/// never rewinds. On any grammar failure the cursor is left unchanged:
/// exhausted input reports `Empty`, anything else `ArgParse` (the engine's
/// "need more input" means nothing to a caller holding one whole message,
/// so it surfaces as a grammar error).
pub open spec fn spec_extract<T: FromArg>(
    before: Seq<char>,
    outcome: Outcome,
    after: Seq<char>,
    r: Result<T, Error<T::Err>>,
) -> bool {
    match outcome {
        Outcome::Done { token, rest } => {
            &&& after == rest
            &&& match r {
                Ok(v) => T::arg_ok(token) && T::arg_value(token, v),
                Err(e) => !T::arg_ok(token) && e matches Error::Parse(_),
            }
        },
        Outcome::NeedMore => {
            &&& after == before
            &&& if before.len() == 0 {
                r matches Err(Error::Empty)
            } else {
                r matches Err(Error::ArgParse)
            }
        },
        Outcome::Violation => {
            &&& after == before
            &&& r matches Err(Error::ArgParse)
        },
    }
}

/// The per-invocation cursor over a message's remaining argument text.
#[derive(Debug)]
pub struct Args {
    unparsed: String,
}

impl View for Args {
    type V = Seq<char>;

    closed spec fn view(&self) -> Seq<char> {
        self.unparsed@
    }
}

impl Args {
    /// Wrap the raw argument text of one command invocation.
    pub fn new(arg_str: &str) -> (r: Args)
        ensures
            r@ == arg_str@,
    {
        Args { unparsed: arg_str.to_owned() }
    }

    /// The text not yet consumed by extractions.
    pub fn remaining(&self) -> (r: &str)
        ensures
            r@ == self@,
    {
        self.unparsed.as_str()
    }

    /// Extract the next unquoted token and convert it to `T`.
    pub fn single<T: FromArg>(&mut self) -> (r: Result<T, Error<T::Err>>)
        ensures
            spec_extract::<T>(old(self)@, spec_single_arg(old(self)@), final(self)@, r),
    {
        match single_arg(self.unparsed.as_str()) {
            Recognition::Done { token, rest } => {
                self.unparsed = rest;
                match T::from_arg(token.as_str()) {
                    Ok(v) => Ok(v),
                    Err(e) => Err(Error::Parse(e)),
                }
            },
            Recognition::NeedMore => {
                if self.unparsed.as_str().is_empty() {
                    Err(Error::Empty)
                } else {
                    Err(Error::ArgParse)
                }
            },
            Recognition::Violation => Err(Error::ArgParse),
        }
    }

    /// Extract the next token under either grammar — quoted when the text
    /// opens with `"`, else unquoted — and convert it to `T`.
    pub fn single_quoted<T: FromArg>(&mut self) -> (r: Result<T, Error<T::Err>>)
        ensures
            spec_extract::<T>(
                old(self)@,
                spec_single_quoted_arg(old(self)@),
                final(self)@,
                r,
            ),
    {
        match single_quoted_arg(self.unparsed.as_str()) {
            Recognition::Done { token, rest } => {
                self.unparsed = rest;
                match T::from_arg(token.as_str()) {
                    Ok(v) => Ok(v),
                    Err(e) => Err(Error::Parse(e)),
                }
            },
            Recognition::NeedMore => {
                if self.unparsed.as_str().is_empty() {
                    Err(Error::Empty)
                } else {
                    Err(Error::ArgParse)
                }
            },
            Recognition::Violation => Err(Error::ArgParse),
        }
    }
}

/// Law: a cursor built from one whole token — a nonempty ASCII text with no
/// whitespace and no quote character — hands that token back as a string and
/// is left empty. The hypotheses are what [`Args::single`] ensures of any
/// call on such a cursor.
pub proof fn lemma_single_returns_whole_input(
    s: Seq<char>,
    after: Seq<char>,
    r: Result<String, Error<ParseNumberError>>,
)
    requires
        s.len() > 0,
        forall|i: int| 0 <= i < s.len() ==> (s[i] as int) < 128,
        forall|i: int| 0 <= i < s.len() ==> !is_arg_space(s[i]),
        forall|i: int| 0 <= i < s.len() ==> s[i] != '"',
        spec_extract::<String>(s, spec_single_arg(s), after, r),
    ensures
        r matches Ok(v) && v@ == s,
        after.len() == 0,
{
    lemma_whole_input_is_one_token(s);
}

/// Law: tokens are extracted in left-to-right order. On a cursor holding a
/// token, one separator and a second token, the first extraction hands back
/// the first token and leaves exactly the second; the second extraction
/// hands back the second token and leaves the cursor empty. The hypotheses
/// on `after1`, `r1`, `after2`, `r2` are what two successive calls of
/// [`Args::single`] ensure.
pub proof fn lemma_single_extracts_in_order(
    s: Seq<char>,
    t: Seq<char>,
    after1: Seq<char>,
    r1: Result<String, Error<ParseNumberError>>,
    after2: Seq<char>,
    r2: Result<String, Error<ParseNumberError>>,
)
    requires
        s.len() > 0,
        t.len() > 0,
        forall|i: int| 0 <= i < s.len() ==> !is_arg_space(s[i]),
        forall|i: int| 0 <= i < s.len() ==> s[i] != '"',
        forall|i: int| 0 <= i < t.len() ==> !is_arg_space(t[i]),
        spec_extract::<String>(s + seq![' '] + t, spec_single_arg(s + seq![' '] + t), after1, r1),
        spec_extract::<String>(after1, spec_single_arg(after1), after2, r2),
    ensures
        r1 matches Ok(v) && v@ == s,
        after1 == t,
        r2 matches Ok(w) && w@ == t,
        after2.len() == 0,
{
    lemma_tokens_in_order(s, t);
    lemma_whole_input_is_one_token(t);
}

/// Law: round trip. A cursor built from the quoted encoding of any token —
/// `\` escaped as `\\`, `"` escaped as `\"`, the whole wrapped in quotes —
/// hands back exactly the original token and is left empty. The hypotheses
/// are what [`Args::single_quoted`] ensures of a call on such a cursor.
pub proof fn lemma_single_quoted_round_trip(
    s: Seq<char>,
    after: Seq<char>,
    r: Result<String, Error<ParseNumberError>>,
)
    requires
        spec_extract::<String>(
            quote_encode(s),
            spec_single_quoted_arg(quote_encode(s)),
            after,
            r,
        ),
    ensures
        r matches Ok(v) && v@ == s,
        after.len() == 0,
{
    lemma_quote_encode_round_trip(s);
}

/// Law: the cursor's buffer never grows. Every extraction — under either
/// grammar, converting or failing to convert — either strictly shrinks the
/// remaining text or leaves it exactly as it was. The hypothesis is what
/// [`Args::single`] or [`Args::single_quoted`] ensures of any call.
pub proof fn lemma_buffer_never_grows<T: FromArg>(
    before: Seq<char>,
    after: Seq<char>,
    r: Result<T, Error<T::Err>>,
)
    requires
        spec_extract::<T>(before, spec_single_arg(before), after, r) || spec_extract::<T>(
            before,
            spec_single_quoted_arg(before),
            after,
            r,
        ),
    ensures
        after.len() < before.len() || after == before,
{
    crate::arg_parser::lemma_recognition_shrinks(before);
}

/// Law: failure on exhausted input is idempotent. Any extraction from an
/// empty cursor reports `Empty` and leaves the cursor empty, so repeating
/// the call any number of times changes nothing and keeps reporting
/// `Empty`. The hypothesis is what [`Args::single`] (or
/// [`Args::single_quoted`]) ensures of a call on an empty cursor.
pub proof fn lemma_empty_failure_idempotent<T: FromArg>(
    after: Seq<char>,
    r: Result<T, Error<T::Err>>,
)
    requires
        spec_extract::<T>(Seq::empty(), spec_single_arg(Seq::empty()), after, r),
    ensures
        r matches Err(Error::Empty),
        after == Seq::<char>::empty(),
{
}

} // verus!
