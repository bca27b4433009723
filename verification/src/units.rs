//! Times and numbers: milliseconds, ticks of 100 ns, and how machine integers wrap.
use vstd::prelude::*;

use crate::text;

verus! {

/// How many ticks of 100 ns a millisecond has.
pub const TICKS_PER_MS: i64 = 10_000;

/// The signed number that has the bits of `n`.
pub open spec fn signed(n: u64) -> int {
    if n <= i64::MAX {
        n as int
    } else {
        n - 0x1_0000_0000_0000_0000
    }
}

/// The unsigned number that has the bits of `n`.
pub open spec fn unsigned(n: i64) -> int {
    if n >= 0 {
        n as int
    } else {
        n + 0x1_0000_0000_0000_0000
    }
}

/// The quotient, cut off towards zero.
pub open spec fn cut_quotient(n: int, d: int) -> int {
    if n >= 0 {
        n / d
    } else {
        -((-n) / d)
    }
}

/// The signed number that has the bits of `n`.
pub fn to_signed(n: u64) -> (r: i64)
    ensures
        r == signed(n),
{
    proof {
        assert(n <= 0x7fff_ffff_ffff_ffffu64 ==> (n as i64) == n) by (bit_vector);
        assert(n > 0x7fff_ffff_ffff_ffffu64 ==> (n as i64) == n - 0x1_0000_0000_0000_0000)
            by (bit_vector);
    }
    #[verifier::truncate]
    (n as i64)
}

/// The unsigned number that has the bits of `n`.
pub fn to_unsigned(n: i64) -> (r: u64)
    ensures
        r == unsigned(n),
{
    proof {
        assert(n >= 0 ==> (n as u64) == n) by (bit_vector);
        assert(n < 0 ==> (n as u64) == n + 0x1_0000_0000_0000_0000) by (bit_vector);
    }
    #[verifier::truncate]
    (n as u64)
}

// ---------------------------------------------------------------------------------------------
// Milliseconds and ticks
// ---------------------------------------------------------------------------------------------

/// The number of ticks in `ms` milliseconds is one of a machine integer.
pub open spec fn ticks_fit(ms: u64) -> bool {
    i64::MIN <= signed(ms) * TICKS_PER_MS <= i64::MAX
}

/// Whether the number of ticks in `ms` milliseconds is one of a machine integer.
pub fn has_ticks(ms: u64) -> (r: bool)
    ensures
        r == ticks_fit(ms),
{
    let n: i64 = to_signed(ms);
    -922_337_203_685_477 <= n && n <= 922_337_203_685_477
}

/// The ticks in `ms` milliseconds.
pub fn ticks_of_ms(ms: u64) -> (r: i64)
    requires
        ticks_fit(ms),
    ensures
        r == signed(ms) * TICKS_PER_MS,
{
    to_signed(ms) * TICKS_PER_MS
}

/// The whole milliseconds in a position, 0 for one before the start.
pub open spec fn ms_in(ticks: int) -> int {
    if ticks < 0 {
        0
    } else {
        ticks / 10_000
    }
}

/// The whole milliseconds in a position, 0 for one before the start.
pub fn ms_of_ticks(ticks: i64) -> (r: u64)
    ensures
        r == ms_in(ticks as int),
{
    let ms: i64 = ticks / TICKS_PER_MS;
    if ms > 0 {
        ms as u64
    } else {
        0
    }
}

/// The milliseconds of a time stamp. One before the start wraps.
pub fn stamp_ms(ticks: i64) -> (r: u64)
    ensures
        r == unsigned(cut_quotient(ticks as int, 10_000) as i64),
        ticks >= 0 ==> r == ticks / 10_000,
{
    to_unsigned(ticks / TICKS_PER_MS)
}

/// A position in milliseconds, taken to ticks and back, is the same position.
pub proof fn law_ms_survive_ticks(ms: u64)
    requires
        ms <= i64::MAX,
        ticks_fit(ms),
    ensures
        ms_in(signed(ms) * TICKS_PER_MS) == ms,
{
}

// ---------------------------------------------------------------------------------------------
// Durations for people
// ---------------------------------------------------------------------------------------------

/// A duration as hours, minutes and seconds, without the hours where there are none.
pub open spec fn clock_text(ms: nat) -> Seq<char> {
    let secs = ms / 1000;
    let h = secs / 3600;
    let m = (secs % 3600) / 60;
    let s = secs % 60;
    if h > 0 {
        text::two_digits(h) + ":"@ + text::two_digits(m) + ":"@ + text::two_digits(s)
    } else {
        text::two_digits(m) + ":"@ + text::two_digits(s)
    }
}

/// A duration as hours, minutes and seconds, without the hours where there are none.
pub fn format_duration(ms: u64) -> (r: String)
    ensures
        r@ == clock_text(ms as nat),
{
    let secs: u64 = ms / 1000;
    let h: u64 = secs / 3600;
    let m: u64 = (secs % 3600) / 60;
    let s: u64 = secs % 60;
    let mut cs: Vec<char> = Vec::new();
    if h > 0 {
        let hours: Vec<char> = text::to_two_digits(h);
        text::push_all(&mut cs, hours.as_slice());
        text::push_str(&mut cs, ":");
    }
    let minutes: Vec<char> = text::to_two_digits(m);
    text::push_all(&mut cs, minutes.as_slice());
    text::push_str(&mut cs, ":");
    let seconds: Vec<char> = text::to_two_digits(s);
    text::push_all(&mut cs, seconds.as_slice());
    assert(cs@ =~= clock_text(ms as nat));
    text::string_of(cs.as_slice())
}

/// Reading a number with or without a sign keeps its bits, so that one undoes the other.
pub proof fn law_signs_undo_each_other(n: u64, m: i64)
    ensures
        i64::MIN <= signed(n) <= i64::MAX,
        0 <= unsigned(m) <= u64::MAX,
        unsigned(signed(n) as i64) == n,
        signed(unsigned(m) as u64) == m,
        n <= i64::MAX ==> signed(n) == n,
        m >= 0 ==> unsigned(m) == m,
{
}

/// A quotient is cut towards 0: what is left has the sign of the number and is less than the divisor.
pub proof fn law_quotient_is_cut(n: int, d: int)
    requires
        d > 0,
    ensures
        n >= 0 ==> cut_quotient(n, d) * d <= n < cut_quotient(n, d) * d + d,
        n <= 0 ==> cut_quotient(n, d) * d - d < n <= cut_quotient(n, d) * d,
        cut_quotient(-n, d) == -cut_quotient(n, d),
{
    assert(0int / d == 0) by (nonlinear_arith)
        requires
            d > 0,
    ;
    let size = if n >= 0 {
        n
    } else {
        -n
    };
    let q = size / d;
    assert(q * d <= size < q * d + d && (-q) * d == -(q * d)) by (nonlinear_arith)
        requires
            q == size / d,
            d > 0,
    ;
}

/// A position is as many whole milliseconds on as it has ten thousands of ticks, and one before the
/// start shows as 0. A later position never shows as an earlier one.
pub proof fn law_milliseconds_are_whole(ticks: int, later: int)
    requires
        ticks <= later,
    ensures
        ticks >= 0 ==> ms_in(ticks) * 10_000 <= ticks < ms_in(ticks) * 10_000 + 10_000,
        ticks < 0 ==> ms_in(ticks) == 0,
        0 <= ms_in(ticks) <= ms_in(later),
{
}

/// Positions of up to twenty-nine thousand years have ticks, and no millisecond more.
pub proof fn law_ordinary_positions_have_ticks(ms: u64)
    requires
        ms <= i64::MAX,
    ensures
        ticks_fit(ms) <==> ms <= 922_337_203_685_477,
{
}

/// A duration is written as hours, minutes and seconds, each with two digits, and without the hours
/// where there are none. What is less than a second does not show.
pub proof fn law_clock_shows_hours_minutes_and_seconds(h: nat, m: nat, s: nat, ms: nat)
    requires
        m < 60,
        s < 60,
        ms < 1000,
    ensures
        h > 0 ==> clock_text(((h * 60 + m) * 60 + s) * 1000 + ms) == text::two_digits(h) + ":"@
            + text::two_digits(m) + ":"@ + text::two_digits(s),
        clock_text((m * 60 + s) * 1000 + ms) == text::two_digits(m) + ":"@ + text::two_digits(s),
{
    let secs = (h * 60 + m) * 60 + s;
    assert((secs * 1000 + ms) / 1000 == secs);
    assert(secs / 3600 == h);
    assert(secs % 3600 == m * 60 + s);
    assert((m * 60 + s) / 60 == m);
    assert(secs % 60 == s);
    let short = m * 60 + s;
    assert((short * 1000 + ms) / 1000 == short);
    assert(short / 3600 == 0 && short % 3600 == short && short % 60 == s);
}

} // verus!
