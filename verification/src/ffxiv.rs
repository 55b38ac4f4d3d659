//! Reset timers for the game-status commands.
//!
//! Instants are plain values here: seconds since the Unix epoch, UTC. The
//! surrounding program reads the clock and formats replies; these functions
//! do the arithmetic. Each reset is the unique instant of its kind strictly
//! after `now` and at most one full period later, which pins the result
//! exactly:
//!
//! * the daily reset is every day at 15:00 UTC;
//! * the weekly reset is every Tuesday at 08:00 UTC;
//! * the crafting reset is every Thursday at 08:00 UTC.
//!
//! The weekday arithmetic rests on the epoch being a Thursday: a day number
//! divisible by seven is a Thursday, so Tuesday 08:00 is 460800 seconds into
//! the week that starts at a Thursday midnight, and Thursday 08:00 is 28800
//! seconds in.

use crate::text::{dec_str, push_char, u64_to_string};
use vstd::prelude::*;

verus! {

pub const SECONDS_PER_DAY: u64 = 86400;

pub const SECONDS_PER_WEEK: u64 = 604800;

/// Seconds from a day's midnight to its 15:00 UTC daily reset.
pub const DAILY_RESET_OFFSET: u64 = 54000;

/// Seconds from a week's starting Thursday midnight to Tuesday 08:00 UTC.
pub const WEEKLY_RESET_OFFSET: u64 = 460800;

/// Seconds from a week's starting Thursday midnight to Thursday 08:00 UTC.
pub const CRAFTING_RESET_OFFSET: u64 = 28800;

/// The first instant at 15:00 UTC strictly after `now`.
pub fn next_daily_reset(now: u64) -> (r: u64)
    requires
        now <= u64::MAX - SECONDS_PER_DAY,
    ensures
        r % SECONDS_PER_DAY == DAILY_RESET_OFFSET,
        now < r <= now + SECONDS_PER_DAY,
{
    let rem = now % SECONDS_PER_DAY;
    let base = now - rem + DAILY_RESET_OFFSET;
    if rem < DAILY_RESET_OFFSET {
        base
    } else {
        base + SECONDS_PER_DAY
    }
}

/// The first instant at Tuesday 08:00 UTC strictly after `now`.
pub fn next_weekly_reset(now: u64) -> (r: u64)
    requires
        now <= u64::MAX - SECONDS_PER_WEEK,
    ensures
        r % SECONDS_PER_WEEK == WEEKLY_RESET_OFFSET,
        now < r <= now + SECONDS_PER_WEEK,
{
    let rem = now % SECONDS_PER_WEEK;
    let base = now - rem + WEEKLY_RESET_OFFSET;
    if rem < WEEKLY_RESET_OFFSET {
        base
    } else {
        base + SECONDS_PER_WEEK
    }
}

/// The first instant at Thursday 08:00 UTC strictly after `now`.
pub fn next_crafting_reset(now: u64) -> (r: u64)
    requires
        now <= u64::MAX - SECONDS_PER_WEEK,
    ensures
        r % SECONDS_PER_WEEK == CRAFTING_RESET_OFFSET,
        now < r <= now + SECONDS_PER_WEEK,
{
    let rem = now % SECONDS_PER_WEEK;
    let base = now - rem + CRAFTING_RESET_OFFSET;
    if rem < CRAFTING_RESET_OFFSET {
        base
    } else {
        base + SECONDS_PER_WEEK
    }
}

/// One phrase of a spelled-out duration: the count, a space, and the unit
/// name, pluralized unless the count is one.
pub open spec fn spec_unit_phrase(n: nat, singular: Seq<char>, plural: Seq<char>) -> Seq<char> {
    dec_str(n) + seq![' '] + (if n == 1 {
        singular
    } else {
        plural
    })
}

/// The nonzero components of `secs`, largest unit first: whole weeks, then
/// days, hours and minutes of the remainder. Seconds are never spelled out.
pub open spec fn spec_duration_phrases(secs: u64) -> Seq<Seq<char>> {
    let weeks = secs as nat / 604800;
    let days = (secs as nat % 604800) / 86400;
    let hours = (secs as nat % 86400) / 3600;
    let minutes = (secs as nat % 3600) / 60;
    (if weeks > 0 {
        seq![spec_unit_phrase(weeks, "week"@, "weeks"@)]
    } else {
        Seq::empty()
    }) + (if days > 0 {
        seq![spec_unit_phrase(days, "day"@, "days"@)]
    } else {
        Seq::empty()
    }) + (if hours > 0 {
        seq![spec_unit_phrase(hours, "hour"@, "hours"@)]
    } else {
        Seq::empty()
    }) + (if minutes > 0 {
        seq![spec_unit_phrase(minutes, "minute"@, "minutes"@)]
    } else {
        Seq::empty()
    })
}

/// The parts joined with single spaces.
pub open spec fn join_spaced(parts: Seq<Seq<char>>) -> Seq<char>
    decreases parts.len(),
{
    if parts.len() == 0 {
        Seq::empty()
    } else if parts.len() == 1 {
        parts[0]
    } else {
        join_spaced(parts.drop_last()) + seq![' '] + parts.last()
    }
}

/// How a duration under a minute, or a negative one clamped to zero by the
/// caller, is phrased.
pub open spec fn spec_until_string(secs: u64) -> Seq<char> {
    let parts = spec_duration_phrases(secs);
    if parts.len() == 0 {
        "less than a minute"@
    } else {
        join_spaced(parts)
    }
}

proof fn lemma_join_spaced_push(parts: Seq<Seq<char>>, x: Seq<char>)
    ensures
        join_spaced(parts.push(x)) == (if parts.len() == 0 {
            x
        } else {
            join_spaced(parts) + seq![' '] + x
        }),
{
    let p2 = parts.push(x);
    assert(p2.drop_last() =~= parts);
    assert(p2.last() == x);
    if parts.len() == 0 {
        assert(join_spaced(p2) == p2[0]);
    }
}

/// Build one unit phrase.
fn unit_phrase(n: u64, singular: &str, plural: &str) -> (r: String)
    ensures
        r@ == spec_unit_phrase(n as nat, singular@, plural@),
{
    let mut r = u64_to_string(n);
    push_char(&mut r, ' ');
    proof {
        assert(dec_str(n as nat).push(' ') =~= dec_str(n as nat) + seq![' ']);
    }
    if n == 1 {
        r.append(singular);
    } else {
        r.append(plural);
    }
    r
}

/// Spell out a duration of `secs` seconds in weeks, days, hours and
/// minutes, skipping zero components; under a minute it is "less than a
/// minute". Negative durations have no phrasing of their own: the caller
/// clamps them to zero.
pub fn until_string(secs: u64) -> (r: String)
    ensures
        r@ == spec_until_string(secs),
{
    let weeks = secs / 604800;
    let days = (secs % 604800) / 86400;
    let hours = (secs % 86400) / 3600;
    let minutes = (secs % 3600) / 60;
    let mut out = String::new();
    let mut first = true;
    let ghost mut parts: Seq<Seq<char>> = Seq::empty();
    if weeks > 0 {
        let phrase = unit_phrase(weeks, "week", "weeks");
        out.append(phrase.as_str());
        proof {
            lemma_join_spaced_push(parts, phrase@);
            parts = parts.push(phrase@);
            assert(Seq::<char>::empty() + phrase@ =~= phrase@);
        }
        first = false;
    }
    if days > 0 {
        let phrase = unit_phrase(days, "day", "days");
        if !first {
            push_char(&mut out, ' ');
        }
        proof {
            lemma_join_spaced_push(parts, phrase@);
            assert(join_spaced(parts).push(' ') =~= join_spaced(parts) + seq![' ']);
        }
        out.append(phrase.as_str());
        proof {
            parts = parts.push(phrase@);
            assert(Seq::<char>::empty() + phrase@ =~= phrase@);
        }
        first = false;
    }
    if hours > 0 {
        let phrase = unit_phrase(hours, "hour", "hours");
        if !first {
            push_char(&mut out, ' ');
        }
        proof {
            lemma_join_spaced_push(parts, phrase@);
            assert(join_spaced(parts).push(' ') =~= join_spaced(parts) + seq![' ']);
        }
        out.append(phrase.as_str());
        proof {
            parts = parts.push(phrase@);
            assert(Seq::<char>::empty() + phrase@ =~= phrase@);
        }
        first = false;
    }
    if minutes > 0 {
        let phrase = unit_phrase(minutes, "minute", "minutes");
        if !first {
            push_char(&mut out, ' ');
        }
        proof {
            lemma_join_spaced_push(parts, phrase@);
            assert(join_spaced(parts).push(' ') =~= join_spaced(parts) + seq![' ']);
        }
        out.append(phrase.as_str());
        proof {
            parts = parts.push(phrase@);
            assert(Seq::<char>::empty() + phrase@ =~= phrase@);
        }
        first = false;
    }
    proof {
        assert(parts =~= spec_duration_phrases(secs));
    }
    if first {
        String::from_str("less than a minute")
    } else {
        out
    }
}

} // verus!
