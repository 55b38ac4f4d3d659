//! The token grammar engine.
//!
//! A message's argument text is split into tokens under one of two grammars:
//!
//! * an *unquoted* token is the maximal run of non-whitespace characters at
//!   the front of the input;
//! * a *quoted* token starts with `"`, copies characters literally until an
//!   unescaped closing `"`, and decodes exactly two escapes: `\"` to `"` and
//!   `\\` to `\`.
//!
//! After a recognized token the input must either end or continue with a
//! whitespace character; exactly one such separator character is consumed,
//! never a longer run. Whitespace here is the ASCII space, tab and newline
//! class used for command-line style splitting, not full Unicode whitespace.
//!
//! Each recognizer reports one of three outcomes: the token together with the
//! unconsumed remainder, `NeedMore` when this input alone cannot complete a
//! token, or `Violation` when the input cannot match the grammar at all. A
//! zero-length unquoted run (input that opens with a separator) is not a
//! completed token; it is reported as `NeedMore`.

use crate::text::push_char;
use vstd::prelude::*;

verus! {

/// The outcome of one recognition attempt, at the executable level.
#[derive(Debug, PartialEq, Eq)]
pub enum Recognition {
    /// A token was recognized; `token` holds its (escape-decoded) text and
    /// `rest` the input left after the token and its separator.
    Done { token: String, rest: String },
    /// The input ended before a token could be completed.
    NeedMore,
    /// The input cannot match the requested grammar.
    Violation,
}

/// The outcome of one recognition attempt, over character sequences.
pub enum Outcome {
    Done { token: Seq<char>, rest: Seq<char> },
    NeedMore,
    Violation,
}

impl View for Recognition {
    type V = Outcome;

    open spec fn view(&self) -> Outcome {
        match self {
            Recognition::Done { token, rest } => Outcome::Done { token: token@, rest: rest@ },
            Recognition::NeedMore => Outcome::NeedMore,
            Recognition::Violation => Outcome::Violation,
        }
    }
}

/// The whitespace class that separates argument tokens.
pub open spec fn is_arg_space(c: char) -> bool {
    c == ' ' || c == '\t' || c == '\n'
}

/// Length of the maximal run of non-whitespace characters at the front of `s`.
pub open spec fn unquoted_len(s: Seq<char>) -> nat
    decreases s.len(),
{
    if s.len() == 0 || is_arg_space(s[0]) {
        0
    } else {
        1 + unquoted_len(s.drop_first())
    }
}

/// What recognizing one unquoted token from `s` yields.
pub open spec fn spec_single_arg(s: Seq<char>) -> Outcome {
    let k = unquoted_len(s) as int;
    if k == 0 {
        Outcome::NeedMore
    } else if k == s.len() {
        Outcome::Done { token: s, rest: Seq::empty() }
    } else {
        Outcome::Done { token: s.subrange(0, k), rest: s.subrange(k + 1, s.len() as int) }
    }
}

/// What recognizing one quoted token from `s` yields. The input must open
/// with `"`; the token is the escape-decoded body up to the first unescaped
/// closing `"`, and `rest` is everything after that closing quote. The
/// separator rule is not applied here; see [`spec_single_quoted_arg`].
pub open spec fn spec_quoted(s: Seq<char>) -> Outcome {
    if s.len() == 0 {
        Outcome::NeedMore
    } else if s[0] != '"' {
        Outcome::Violation
    } else {
        spec_quoted_body(s.drop_first())
    }
}

/// Decode a quoted body; `s` starts right after the opening quote.
pub open spec fn spec_quoted_body(s: Seq<char>) -> Outcome
    decreases s.len(),
{
    if s.len() == 0 {
        Outcome::NeedMore
    } else if s[0] == '"' {
        Outcome::Done { token: Seq::empty(), rest: s.drop_first() }
    } else if s[0] == '\\' {
        if s.len() == 1 {
            Outcome::NeedMore
        } else if s[1] == '"' || s[1] == '\\' {
            prepend_token(seq![s[1]], spec_quoted_body(s.skip(2)))
        } else {
            Outcome::Violation
        }
    } else {
        prepend_token(seq![s[0]], spec_quoted_body(s.drop_first()))
    }
}

/// Extend the token of a successful outcome with a decoded prefix.
pub open spec fn prepend_token(p: Seq<char>, o: Outcome) -> Outcome {
    match o {
        Outcome::Done { token, rest } => Outcome::Done { token: p + token, rest },
        _ => o,
    }
}

proof fn lemma_unquoted_len_le(s: Seq<char>)
    ensures
        unquoted_len(s) <= s.len(),
    decreases s.len(),
{
    if s.len() > 0 && !is_arg_space(s[0]) {
        lemma_unquoted_len_le(s.drop_first());
    }
}

proof fn lemma_unquoted_len_at(s: Seq<char>, i: int)
    requires
        0 <= i <= s.len(),
        forall|j: int| 0 <= j < i ==> !is_arg_space(s[j]),
        i == s.len() || is_arg_space(s[i]),
    ensures
        unquoted_len(s) == i,
    decreases i,
{
    if i == 0 {
    } else {
        assert(!is_arg_space(s[0]));
        lemma_unquoted_len_at(s.drop_first(), i - 1);
    }
}

/// Law: a nonempty input with no whitespace is recognized as one whole
/// unquoted token, leaving nothing behind.
pub proof fn lemma_whole_input_is_one_token(s: Seq<char>)
    requires
        s.len() > 0,
        forall|i: int| 0 <= i < s.len() ==> !is_arg_space(s[i]),
    ensures
        spec_single_arg(s) == (Outcome::Done { token: s, rest: Seq::<char>::empty() }),
{
    lemma_unquoted_len_at(s, s.len() as int);
}

/// Law: tokens come out in left-to-right order: a token, one separator and
/// more text are recognized as exactly that token with exactly that text
/// left.
pub proof fn lemma_tokens_in_order(s: Seq<char>, t: Seq<char>)
    requires
        s.len() > 0,
        forall|i: int| 0 <= i < s.len() ==> !is_arg_space(s[i]),
    ensures
        spec_single_arg(s + seq![' '] + t) == (Outcome::Done { token: s, rest: t }),
{
    let u = s + seq![' '] + t;
    assert(forall|i: int| 0 <= i < s.len() ==> u[i] == s[i]);
    assert(u[s.len() as int] == ' ');
    lemma_unquoted_len_at(u, s.len() as int);
    assert(u.subrange(0, s.len() as int) =~= s);
    assert(u.subrange(s.len() as int + 1, u.len() as int) =~= t);
}

/// Recognize one unquoted token from the front of `input`: the maximal run of
/// non-whitespace characters, followed by the end of the input or by exactly
/// one consumed whitespace separator.
pub fn single_arg(input: &str) -> (r: Recognition)
    ensures
        r@ == spec_single_arg(input@),
{
    let n = input.unicode_len();
    let mut i: usize = 0;
    while i < n
        invariant
            i <= n,
            n == input@.len(),
            forall|j: int| 0 <= j < i ==> !is_arg_space(input@[j]),
        ensures
            i <= n,
            forall|j: int| 0 <= j < i ==> !is_arg_space(input@[j]),
            i == n || is_arg_space(input@[i as int]),
        decreases n - i,
    {
        let c = input.get_char(i);
        if c == ' ' || c == '\t' || c == '\n' {
            break ;
        }
        i = i + 1;
    }
    proof {
        lemma_unquoted_len_at(input@, i as int);
    }
    if i == 0 {
        return Recognition::NeedMore;
    }
    let token = input.substring_char(0, i).to_owned();
    if i == n {
        proof {
            assert(input@.subrange(0, i as int) =~= input@);
        }
        Recognition::Done { token, rest: String::new() }
    } else {
        let rest = input.substring_char(i + 1, n).to_owned();
        Recognition::Done { token, rest }
    }
}

/// The separator rule: after a recognized token the input must end, or one
/// whitespace character is consumed; anything else is a violation.
pub open spec fn spec_after_separator(rest: Seq<char>) -> Option<Seq<char>> {
    if rest.len() == 0 {
        Some(rest)
    } else if is_arg_space(rest[0]) {
        Some(rest.drop_first())
    } else {
        None
    }
}

/// What recognizing one token under either grammar from `s` yields: the
/// quoted grammar is attempted first, and only an input that does not open
/// with `"` falls back to the unquoted grammar. An input that opens with `"`
/// is held to the full quoted rules; a malformed quoted token is an error,
/// never reread as an unquoted token.
pub open spec fn spec_single_quoted_arg(s: Seq<char>) -> Outcome {
    if s.len() == 0 {
        Outcome::NeedMore
    } else if s[0] == '"' {
        match spec_quoted(s) {
            Outcome::Done { token, rest } => match spec_after_separator(rest) {
                Some(r) => Outcome::Done { token, rest: r },
                None => Outcome::Violation,
            },
            o => o,
        }
    } else {
        spec_single_arg(s)
    }
}

proof fn lemma_prepend_token_compose(p: Seq<char>, q: Seq<char>, o: Outcome)
    ensures
        prepend_token(p, prepend_token(q, o)) == prepend_token(p + q, o),
{
    match o {
        Outcome::Done { token, rest } => {
            assert(p + (q + token) =~= (p + q) + token);
        },
        _ => {},
    }
}

/// Recognize one quoted token from the front of `input`. The input must open
/// with `"`; characters are copied literally until an unescaped closing `"`,
/// with `\"` decoding to `"` and `\\` to `\`; any other escaped character is
/// a violation. The remainder after the closing quote is returned untouched:
/// the separator rule is applied by [`single_quoted_arg`].
pub fn quoted(input: &str) -> (r: Recognition)
    ensures
        r@ == spec_quoted(input@),
{
    let n = input.unicode_len();
    if n == 0 {
        return Recognition::NeedMore;
    }
    if input.get_char(0) != '"' {
        return Recognition::Violation;
    }
    let mut token = String::new();
    let mut i: usize = 1;
    loop
        invariant
            1 <= i <= n,
            n == input@.len(),
            input@[0] == '"',
            spec_quoted(input@) == prepend_token(
                token@,
                spec_quoted_body(input@.skip(i as int)),
            ),
        decreases n - i,
    {
        if i == n {
            return Recognition::NeedMore;
        }
        let c = input.get_char(i);
        if c == '"' {
            proof {
                assert(input@.skip(i as int)[0] == input@[i as int]);
                assert(input@.skip(i as int).drop_first() =~= input@.subrange(
                    i as int + 1,
                    n as int,
                ));
                assert(token@ + Seq::<char>::empty() =~= token@);
            }
            let rest = input.substring_char(i + 1, n).to_owned();
            return Recognition::Done { token, rest };
        }
        if c == '\\' {
            if i + 1 == n {
                return Recognition::NeedMore;
            }
            let d = input.get_char(i + 1);
            if d != '"' && d != '\\' {
                return Recognition::Violation;
            }
            proof {
                assert(input@.skip(i as int).skip(2) =~= input@.skip(i as int + 2));
                lemma_prepend_token_compose(
                    token@,
                    seq![d],
                    spec_quoted_body(input@.skip(i as int + 2)),
                );
                assert(token@ + seq![d] =~= token@.push(d));
            }
            push_char(&mut token, d);
            i = i + 2;
        } else {
            proof {
                assert(input@.skip(i as int).drop_first() =~= input@.skip(i as int + 1));
                lemma_prepend_token_compose(
                    token@,
                    seq![c],
                    spec_quoted_body(input@.skip(i as int + 1)),
                );
                assert(token@ + seq![c] =~= token@.push(c));
            }
            push_char(&mut token, c);
            i = i + 1;
        }
    }
}

/// The escaped form of a token body: `\` becomes `\\` and `"` becomes `\"`;
/// every other character stands for itself.
pub open spec fn escape_chars(s: Seq<char>) -> Seq<char>
    decreases s.len(),
{
    if s.len() == 0 {
        Seq::empty()
    } else if s[0] == '"' || s[0] == '\\' {
        seq!['\\', s[0]] + escape_chars(s.drop_first())
    } else {
        seq![s[0]] + escape_chars(s.drop_first())
    }
}

/// The quoted encoding of an arbitrary token: its escaped form between two
/// quote characters.
pub open spec fn quote_encode(s: Seq<char>) -> Seq<char> {
    seq!['"'] + escape_chars(s) + seq!['"']
}

proof fn lemma_quoted_body_decodes_escaped(s: Seq<char>, r: Seq<char>)
    ensures
        spec_quoted_body(escape_chars(s) + seq!['"'] + r) == (Outcome::Done {
            token: s,
            rest: r,
        }),
    decreases s.len(),
{
    let u = escape_chars(s) + seq!['"'] + r;
    if s.len() == 0 {
        assert(u[0] == '"');
        assert(u.drop_first() =~= r);
        assert(s =~= Seq::<char>::empty());
        assert(spec_quoted_body(u) == (Outcome::Done { token: s, rest: r }));
    } else {
        lemma_quoted_body_decodes_escaped(s.drop_first(), r);
        if s[0] == '"' || s[0] == '\\' {
            assert(u[0] == '\\');
            assert(u.len() > 1);
            assert(u[1] == s[0]);
            assert(u.skip(2) =~= escape_chars(s.drop_first()) + seq!['"'] + r);
            assert(seq![s[0]] + s.drop_first() =~= s);
            assert(spec_quoted_body(u) == (Outcome::Done { token: s, rest: r }));
        } else {
            assert(u[0] == s[0]);
            assert(u[0] != '"' && u[0] != '\\');
            assert(u.drop_first() =~= escape_chars(s.drop_first()) + seq!['"'] + r);
            assert(seq![s[0]] + s.drop_first() =~= s);
            assert(spec_quoted_body(u) == (Outcome::Done { token: s, rest: r }));
        }
    }
}

/// Law: round trip. Encoding any token — quotes and backslashes included —
/// in the quoted grammar and recognizing the result yields the original
/// token exactly, with nothing left over.
pub proof fn lemma_quote_encode_round_trip(s: Seq<char>)
    ensures
        spec_single_quoted_arg(quote_encode(s)) == (Outcome::Done {
            token: s,
            rest: Seq::<char>::empty(),
        }),
{
    let u = quote_encode(s);
    assert(u[0] == '"');
    assert(u.drop_first() =~= escape_chars(s) + seq!['"'] + Seq::<char>::empty());
    lemma_quoted_body_decodes_escaped(s, Seq::<char>::empty());
}

proof fn lemma_quoted_body_rest_shorter(s: Seq<char>)
    ensures
        spec_quoted_body(s) matches Outcome::Done { token, rest } ==> rest.len() < s.len(),
    decreases s.len(),
{
    if s.len() == 0 || s[0] == '"' {
    } else if s[0] == '\\' {
        if s.len() > 1 && (s[1] == '"' || s[1] == '\\') {
            lemma_quoted_body_rest_shorter(s.skip(2));
        }
    } else {
        lemma_quoted_body_rest_shorter(s.drop_first());
    }
}

/// Law: the input never grows. A recognition under either grammar either
/// consumes at least one character — its remainder is strictly shorter than
/// the input — or fails and consumes nothing.
pub proof fn lemma_recognition_shrinks(s: Seq<char>)
    ensures
        spec_single_arg(s) matches Outcome::Done { token, rest } ==> rest.len() < s.len(),
        spec_single_quoted_arg(s) matches Outcome::Done { token, rest } ==> rest.len() < s.len(),
{
    lemma_unquoted_len_le(s);
    if s.len() > 0 && s[0] == '"' {
        lemma_quoted_body_rest_shorter(s.drop_first());
    }
}

/// Recognize one token under either grammar: a quoted token when the input
/// opens with `"`, else an unquoted token; in both cases the separator rule
/// is applied to what follows the token.
pub fn single_quoted_arg(input: &str) -> (r: Recognition)
    ensures
        r@ == spec_single_quoted_arg(input@),
{
    let n = input.unicode_len();
    if n == 0 {
        return Recognition::NeedMore;
    }
    if input.get_char(0) != '"' {
        return single_arg(input);
    }
    match quoted(input) {
        Recognition::Done { token, rest } => {
            let m = rest.as_str().unicode_len();
            if m == 0 {
                Recognition::Done { token, rest }
            } else {
                let c = rest.as_str().get_char(0);
                if c == ' ' || c == '\t' || c == '\n' {
                    let r2 = rest.as_str().substring_char(1, m).to_owned();
                    proof {
                        assert(rest@.drop_first() =~= rest@.subrange(1, m as int));
                    }
                    Recognition::Done { token, rest: r2 }
                } else {
                    Recognition::Violation
                }
            }
        },
        other => other,
    }
}

} // verus!
