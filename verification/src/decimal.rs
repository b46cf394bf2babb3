//! Decimal numbers as plain parts, and the time decay of link scores
//! computed with `rust_decimal`.

use vstd::prelude::*;
use rust_decimal::Decimal;
use rust_decimal::MathematicalOps;

verus! {

/// Largest mantissa magnitude of a `rust_decimal::Decimal` (96 bits).
pub open spec fn max_mantissa() -> int {
    0xffff_ffff_ffff_ffff_ffff_ffff
}

/// Largest scale of a `rust_decimal::Decimal`.
pub const MAX_DECIMAL_SCALE: u32 = 28;

/// The decimal number `mantissa / 10^scale`.
#[derive(Clone, Copy, Debug)]
pub struct DecimalValue {
    pub mantissa: i64,
    pub scale: u32,
}

impl DecimalValue {
    pub open spec fn wf(self) -> bool {
        self.scale <= MAX_DECIMAL_SCALE
    }

    /// The number `mantissa / 10^scale`; `0.4` is `DecimalValue::new(4, 1)`.
    pub fn new(mantissa: i64, scale: u32) -> (d: DecimalValue)
        requires
            scale <= MAX_DECIMAL_SCALE,
        ensures
            d.mantissa == mantissa,
            d.scale == scale,
            d.wf(),
    {
        DecimalValue { mantissa, scale }
    }
}

/// What `Decimal::checked_powd` gives for `base_m / 10^base_s` raised to
/// `exp_m / 10^exp_s`, as (mantissa, scale).
pub uninterp spec fn decimal_powd_result(base_m: int, base_s: int, exp_m: int, exp_s: int) -> Option<(int, int)>;

/// What `Decimal::checked_div` gives for `a_m / 10^a_s` divided by `b_m / 10^b_s`,
/// as (mantissa, scale).
pub uninterp spec fn decimal_div_result(a_m: int, a_s: int, b_m: int, b_s: int) -> Option<(int, int)>;

pub open spec fn valid_parts(m: int, s: int) -> bool {
    -max_mantissa() <= m <= max_mantissa() && 0 <= s <= MAX_DECIMAL_SCALE
}

/// `Decimal::checked_powd` on decimals given by their parts. Claimed: the result is
/// the crate's answer for these parts, and a returned decimal has valid parts
/// (a 96-bit mantissa and a scale of at most 28, as every `Decimal` has).
#[verifier::external_body]
fn decimal_checked_powd(base_m: i128, base_s: u32, exp_m: i128, exp_s: u32) -> (r: Option<(i128, u32)>)
    requires
        valid_parts(base_m as int, base_s as int),
        valid_parts(exp_m as int, exp_s as int),
    ensures
        match r {
            Some(p) => decimal_powd_result(base_m as int, base_s as int, exp_m as int, exp_s as int)
                == Some((p.0 as int, p.1 as int)) && valid_parts(p.0 as int, p.1 as int),
            None => decimal_powd_result(base_m as int, base_s as int, exp_m as int, exp_s as int) is None,
        },
{
    let base = Decimal::from_i128_with_scale(base_m, base_s);
    let exp = Decimal::from_i128_with_scale(exp_m, exp_s);
    base.checked_powd(exp).map(|d| (d.mantissa(), d.scale()))
}

/// `Decimal::checked_div` on decimals given by their parts. Claimed: the result is
/// the crate's answer for these parts, and a returned decimal has valid parts.
#[verifier::external_body]
fn decimal_checked_div(a_m: i128, a_s: u32, b_m: i128, b_s: u32) -> (r: Option<(i128, u32)>)
    requires
        valid_parts(a_m as int, a_s as int),
        valid_parts(b_m as int, b_s as int),
    ensures
        match r {
            Some(p) => decimal_div_result(a_m as int, a_s as int, b_m as int, b_s as int)
                == Some((p.0 as int, p.1 as int)) && valid_parts(p.0 as int, p.1 as int),
            None => decimal_div_result(a_m as int, a_s as int, b_m as int, b_s as int) is None,
        },
{
    let a = Decimal::from_i128_with_scale(a_m, a_s);
    let b = Decimal::from_i128_with_scale(b_m, b_s);
    a.checked_div(b).map(|d| (d.mantissa(), d.scale()))
}

pub open spec fn pow10(s: nat) -> int
    decreases s,
{
    if s == 0 {
        1
    } else {
        10 * pow10((s - 1) as nat)
    }
}

/// `m / 10^s` rounded toward zero.
pub open spec fn truncate_parts(m: int, s: nat) -> int {
    if m >= 0 {
        m / pow10(s)
    } else {
        -((-m) / pow10(s))
    }
}

/// What `to_i32` gives for the decimal `m / 10^s`: its integer part, when that fits.
pub open spec fn parts_to_i32(m: int, s: nat) -> Option<i32> {
    let t = truncate_parts(m, s);
    if i32::MIN <= t <= i32::MAX {
        Some(t as i32)
    } else {
        None
    }
}

/// `url_score / (hours_since_first_created + 2)^gravity`, cut to its integer part:
/// `None` where a step of the computation fails.
pub open spec fn decayed_score_spec(gravity: DecimalValue, url_score: i32, hours: i64) -> Option<i32> {
    match decimal_powd_result(hours + 2, 0, gravity.mantissa as int, gravity.scale as int) {
        Some(den) => match decimal_div_result(url_score as int, 0, den.0, den.1) {
            Some(q) => parts_to_i32(q.0, q.1 as nat),
            None => None,
        },
        None => None,
    }
}

proof fn lemma_pow10_positive(s: nat)
    ensures
        pow10(s) >= 1,
    decreases s,
{
    if s > 0 {
        lemma_pow10_positive((s - 1) as nat);
    }
}

fn truncated_i32(m: i128, s: u32) -> (r: Option<i32>)
    requires
        valid_parts(m as int, s as int),
    ensures
        r == parts_to_i32(m as int, s as nat),
{
    let neg = m < 0;
    let mut a: i128 = if neg { -m } else { m };
    let mut k: u32 = 0;
    proof {
        lemma_pow10_positive(0);
    }
    while k < s
        invariant
            k <= s,
            neg == (m < 0),
            s <= MAX_DECIMAL_SCALE,
            0 <= a <= max_mantissa(),
            a == (if neg { -(m as int) } else { m as int }) / pow10(k as nat),
        decreases s - k,
    {
        proof {
            lemma_pow10_positive(k as nat);
            let base = if neg { -(m as int) } else { m as int };
            assert(pow10((k + 1) as nat) == pow10(k as nat) * 10);
            assert(base >= 0);
            vstd::arithmetic::div_mod::lemma_div_denominator(base, pow10(k as nat), 10);
        }
        a = a / 10;
        k = k + 1;
    }
    let t: i128 = if neg { -a } else { a };
    if -2147483648 <= t && t <= 2147483647 {
        Some(t as i32)
    } else {
        None
    }
}

fn decay_steps(gravity: DecimalValue, url_score: i32, hours_since_first_created: i64) -> (r: Option<i32>)
    requires
        gravity.wf(),
    ensures
        r == decayed_score_spec(gravity, url_score, hours_since_first_created),
{
    let time_value: i128 = hours_since_first_created as i128 + 2;
    match decimal_checked_powd(time_value, 0, gravity.mantissa as i128, gravity.scale) {
        Some(den) => match decimal_checked_div(url_score as i128, 0, den.0, den.1) {
            Some(q) => truncated_i32(q.0, q.1),
            None => None,
        },
        None => None,
    }
}

/// Hacker-News-style time decay of a link's score:
/// `url_score / (hours_since_first_created + 2)^gravity`, cut to its integer part.
pub fn time_decayed_url_score(gravity: DecimalValue, url_score: i32, hours_since_first_created: i64) -> (r: i32)
    requires
        gravity.wf(),
        decayed_score_spec(gravity, url_score, hours_since_first_created) is Some,
    ensures
        Some(r) == decayed_score_spec(gravity, url_score, hours_since_first_created),
{
    match decay_steps(gravity, url_score, hours_since_first_created) {
        Some(v) => v,
        None => {
            proof {
                assert(false);
            }
            0
        },
    }
}

/// The time-decayed score, or `None` where the decimal computation fails
/// (where the plain computation would stop the program).
pub fn checked_time_decayed_url_score(gravity: DecimalValue, url_score: i32, hours_since_first_created: i64) -> (r: Option<i32>)
    requires
        gravity.wf(),
    ensures
        r == decayed_score_spec(gravity, url_score, hours_since_first_created),
{
    match decay_steps(gravity, url_score, hours_since_first_created) {
        Some(_) => Some(time_decayed_url_score(gravity, url_score, hours_since_first_created)),
        None => None,
    }
}

} // verus!
