//! The computations behind the small chat commands: the die-roll expression
//! grammar, the dice themselves, and the fortune-telling answer table.

use crate::text::{is_ascii_digit, parse_digits, spec_parse_digits};
use vstd::prelude::*;

verus! {

/// Length of the maximal run of digit characters at the front of `s`.
pub open spec fn digit_run_len(s: Seq<char>) -> nat
    decreases s.len(),
{
    if s.len() == 0 || !is_ascii_digit(s[0]) {
        0
    } else {
        1 + digit_run_len(s.drop_first())
    }
}

/// What a die-roll expression means. The grammar is an optional run of
/// digits (the number of dice, one when omitted), the letter `d`, and a
/// nonempty run of digits (the sides per die), nothing else; both numbers
/// must fit in a `u64`.
pub open spec fn spec_parse_dice(s: Seq<char>) -> Option<(int, int)> {
    let k = digit_run_len(s) as int;
    if k < s.len() && s[k] == 'd' {
        let quantity = if k == 0 {
            Some(1int)
        } else {
            spec_parse_digits(s.take(k))
        };
        let sides = spec_parse_digits(s.skip(k + 1));
        match (quantity, sides) {
            (Some(q), Some(m)) => Some((q, m)),
            _ => None,
        }
    } else {
        None
    }
}

proof fn lemma_digit_run_len_at(s: Seq<char>, i: int)
    requires
        0 <= i <= s.len(),
        forall|j: int| 0 <= j < i ==> is_ascii_digit(s[j]),
        i == s.len() || !is_ascii_digit(s[i]),
    ensures
        digit_run_len(s) == i,
    decreases i,
{
    if i > 0 {
        lemma_digit_run_len_at(s.drop_first(), i - 1);
    }
}

/// Parse a die-roll expression such as `d20` or `3d6` into the number of
/// dice and the sides per die.
pub fn parse_dice_expression(s: &str) -> (r: Option<(u64, u64)>)
    ensures
        match r {
            Some(v) => spec_parse_dice(s@) == Some((v.0 as int, v.1 as int)),
            None => spec_parse_dice(s@) is None,
        },
{
    let n = s.unicode_len();
    let mut k: usize = 0;
    while k < n
        invariant
            k <= n,
            n == s@.len(),
            forall|j: int| 0 <= j < k ==> is_ascii_digit(s@[j]),
        ensures
            k <= n,
            forall|j: int| 0 <= j < k ==> is_ascii_digit(s@[j]),
            k == n || !is_ascii_digit(s@[k as int]),
        decreases n - k,
    {
        let c = s.get_char(k);
        let u = c as u32;
        if u < 48 || u > 57 {
            break ;
        }
        k = k + 1;
    }
    proof {
        lemma_digit_run_len_at(s@, k as int);
    }
    if k == n {
        return None;
    }
    if s.get_char(k) != 'd' {
        return None;
    }
    let sides_str = s.substring_char(k + 1, n);
    proof {
        assert(sides_str@ =~= s@.skip(k + 1));
    }
    let sides = match parse_digits(sides_str) {
        Ok(m) => m,
        Err(_) => {
            return None;
        },
    };
    if k == 0 {
        return Some((1, sides));
    }
    let quantity_str = s.substring_char(0, k);
    proof {
        assert(quantity_str@ =~= s@.take(k as int));
    }
    match parse_digits(quantity_str) {
        Ok(q) => Some((q, sides)),
        Err(_) => None,
    }
}

/// Relies on rand::random_range: a draw from the range `0..n`, which is
/// nonempty whenever `n > 0`.
#[verifier::external_body]
fn draw_below(n: u64) -> (r: u64)
    requires
        n > 0,
    ensures
        r < n,
{
    rand::random_range(0..n)
}

/// Roll `quantity` dice of `sides` sides each and add them up. Each die
/// shows 1 through `sides`, so the total lies between `quantity` and
/// `quantity * sides`; which total comes out is up to the dice.
pub fn roll_dice(quantity: u64, sides: u64) -> (total: u64)
    requires
        sides >= 1,
        quantity * sides <= u64::MAX,
    ensures
        quantity <= total <= quantity * sides,
{
    let mut total: u64 = 0;
    let mut i: u64 = 0;
    while i < quantity
        invariant
            i <= quantity,
            sides >= 1,
            quantity * sides <= u64::MAX,
            i <= total,
            total <= i * sides,
        decreases quantity - i,
    {
        proof {
            assert((i + 1) * sides == i * sides + sides) by (nonlinear_arith);
            assert((i + 1) * sides <= quantity * sides) by (nonlinear_arith)
                requires
                    i + 1 <= quantity,
                    sides >= 1,
            ;
        }
        let d = draw_below(sides);
        total = total + d + 1;
        i = i + 1;
    }
    total
}

/// The answers of the fortune-telling command.
pub open spec fn spec_eight_ball_responses() -> Seq<Seq<char>> {
    seq![
        "It is certain"@,
        "It is decidedly so"@,
        "Without a doubt"@,
        "Yes definitely"@,
        "You may rely on it"@,
        "As I see it, yes"@,
        "Most likely"@,
        "Outlook good"@,
        "Yes"@,
        "Signs point to yes"@,
        "Reply hazy try again"@,
        "Ask again later"@,
        "Better not tell you now"@,
        "Cannot predict now"@,
        "Concentrate and ask again"@,
        "Don't count on it"@,
        "My reply is no"@,
        "My sources say no"@,
        "Outlook not so good"@,
        "Very doubtful"@,
    ]
}

/// The answer picked by a draw of `idx`.
pub fn eight_ball_response(idx: u64) -> (r: String)
    requires
        idx < 20,
    ensures
        r@ == spec_eight_ball_responses()[idx as int],
{
    if idx == 0 {
        String::from_str("It is certain")
    } else if idx == 1 {
        String::from_str("It is decidedly so")
    } else if idx == 2 {
        String::from_str("Without a doubt")
    } else if idx == 3 {
        String::from_str("Yes definitely")
    } else if idx == 4 {
        String::from_str("You may rely on it")
    } else if idx == 5 {
        String::from_str("As I see it, yes")
    } else if idx == 6 {
        String::from_str("Most likely")
    } else if idx == 7 {
        String::from_str("Outlook good")
    } else if idx == 8 {
        String::from_str("Yes")
    } else if idx == 9 {
        String::from_str("Signs point to yes")
    } else if idx == 10 {
        String::from_str("Reply hazy try again")
    } else if idx == 11 {
        String::from_str("Ask again later")
    } else if idx == 12 {
        String::from_str("Better not tell you now")
    } else if idx == 13 {
        String::from_str("Cannot predict now")
    } else if idx == 14 {
        String::from_str("Concentrate and ask again")
    } else if idx == 15 {
        String::from_str("Don't count on it")
    } else if idx == 16 {
        String::from_str("My reply is no")
    } else if idx == 17 {
        String::from_str("My sources say no")
    } else if idx == 18 {
        String::from_str("Outlook not so good")
    } else {
        String::from_str("Very doubtful")
    }
}

/// Draw one answer for the fortune-telling command; every answer comes from
/// the table, and which one is up to the draw.
pub fn eight_ball_reply() -> (r: String)
    ensures
        exists|i: int| 0 <= i < 20 && r@ == spec_eight_ball_responses()[i],
{
    let idx = draw_below(20);
    let r = eight_ball_response(idx);
    proof {
        assert(0 <= (idx as int) < 20 && r@ == spec_eight_ball_responses()[idx as int]);
    }
    r
}

} // verus!
