use vstd::arithmetic::div_mod::{lemma_div_is_ordered, lemma_div_pos_is_pos, lemma_fundamental_div_mod, lemma_mod_bound};
use vstd::arithmetic::mul::{lemma_mul_inequality, lemma_mul_nonnegative};
use vstd::prelude::*;

pub mod libs;

verus! {

/// Number of fractional decimal digits that one unit of an amount stands for:
/// an amount `n` is the decimal number `n / 10^SCALE_DIGITS`.
pub const SCALE_DIGITS: u32 = 8;

/// Largest magnitude an amount or a balance may reach, in units of
/// `10^-SCALE_DIGITS`: `10^37`.
pub const AMOUNT_LIMIT: i128 = 10_000_000_000_000_000_000_000_000_000_000_000_000i128;

/// Whether `v` is an amount the library can round and hold as a balance.
pub open spec fn in_range(v: int) -> bool {
    -AMOUNT_LIMIT <= v <= AMOUNT_LIMIT
}

/// `10^e` as a mathematical integer.
pub open spec fn pow10(e: nat) -> int
    decreases e,
{
    if e == 0 {
        1
    } else {
        10 * pow10((e - 1) as nat)
    }
}

/// Distance between two neighbouring numbers of `dp` fractional digits, in
/// units of `10^-SCALE_DIGITS`. Beyond `SCALE_DIGITS` digits every amount is
/// already exact.
pub open spec fn step_of(dp: u32) -> int {
    if dp >= SCALE_DIGITS {
        1
    } else {
        pow10((SCALE_DIGITS - dp) as nat)
    }
}

/// The multiple of `step` nearest to the non-negative `mag`; a tie goes up.
pub open spec fn round_magnitude(mag: int, step: int) -> int {
    if 2 * (mag % step) >= step {
        (mag / step + 1) * step
    } else {
        (mag / step) * step
    }
}

/// The multiple of `step` nearest to `num`; a tie goes away from zero.
pub open spec fn round_half_up(num: int, step: int) -> int {
    if num >= 0 {
        round_magnitude(num, step)
    } else {
        -round_magnitude(-num, step)
    }
}

/// Rounding a magnitude within the limit to a step that divides the limit
/// stays within the limit, and gives a multiple of the step no further than
/// half a step away.
pub proof fn lemma_round_magnitude(mag: int, step: int)
    requires
        0 <= mag <= AMOUNT_LIMIT,
        0 < step,
        (AMOUNT_LIMIT as int) % step == 0,
    ensures
        0 <= mag / step,
        0 <= mag % step < step,
        0 <= round_magnitude(mag, step) <= AMOUNT_LIMIT,
        round_magnitude(mag, step) % step == 0,
        2 * (round_magnitude(mag, step) - mag) <= step,
        2 * (mag - round_magnitude(mag, step)) < step,
{
    let limit = AMOUNT_LIMIT as int;
    let q = mag / step;
    let r = mag % step;
    let k = limit / step;
    lemma_fundamental_div_mod(mag, step);
    lemma_fundamental_div_mod(limit, step);
    lemma_mod_bound(mag, step);
    lemma_div_pos_is_pos(mag, step);
    lemma_div_is_ordered(mag, limit, step);
    lemma_mul_nonnegative(q, step);
    assert(q * step == step * q) by (nonlinear_arith);
    assert((q + 1) * step == step * q + step) by (nonlinear_arith);
    assert(k * step == step * k) by (nonlinear_arith);
    if r > 0 {
        if q == k {
            assert(mag == limit + r);
        }
        lemma_mul_inequality(q + 1, k, step);
    }
    vstd::arithmetic::div_mod::lemma_mod_multiples_basic(q, step);
    vstd::arithmetic::div_mod::lemma_mod_multiples_basic(q + 1, step);
}

/// The step between neighbouring numbers of `dp` fractional digits.
fn step_for(dp: u32) -> (step: i128)
    ensures
        step == step_of(dp),
        1 <= step <= 100_000_000,
        AMOUNT_LIMIT % step == 0,
{
    proof {
        reveal_with_fuel(pow10, 9);
    }
    if dp >= 8 {
        1
    } else if dp == 7 {
        10
    } else if dp == 6 {
        100
    } else if dp == 5 {
        1_000
    } else if dp == 4 {
        10_000
    } else if dp == 3 {
        100_000
    } else if dp == 2 {
        1_000_000
    } else if dp == 1 {
        10_000_000
    } else {
        100_000_000
    }
}

/// Rounds `num` half up to `dp` fractional digits: to the nearest multiple
/// of `10^(SCALE_DIGITS - dp)`, a tie going away from zero. With
/// `SCALE_DIGITS` digits or more, `num` comes back as it is.
pub fn precision_64(num: i128, dp: u32) -> (rounded: i128)
    requires
        in_range(num as int),
    ensures
        rounded == round_half_up(num as int, step_of(dp)),
        in_range(rounded as int),
{
    let step: i128 = step_for(dp);
    let negative = num < 0;
    let mag: i128 = if negative { -num } else { num };
    proof {
        lemma_round_magnitude(mag as int, step as int);
    }
    let q: i128 = mag / step;
    let rem: i128 = mag % step;
    let m: i128 = if 2 * rem >= step { (q + 1) * step } else { q * step };
    if negative { -m } else { m }
}

/// Why the arguments of a run could not be read.
#[derive(Debug, Clone, Copy, PartialEq, Eq, Structural)]
pub enum ParamsError {
    /// The program's name is not followed by a filename.
    NoFilename,
}

impl ParamsError {
    /// The words that the error is reported with.
    pub fn message(&self) -> (text: String)
        ensures
            text@ == "No filename given"@,
    {
        "No filename given".to_owned()
    }
}

/// The arguments of a run.
pub struct Params {
    filename: String,
}

impl View for Params {
    type V = Seq<char>;

    closed spec fn view(&self) -> Seq<char> {
        self.filename@
    }
}

impl Params {
    /// Reads the arguments of a run: the program's name, then the filename.
    /// Whatever follows the filename is ignored.
    pub fn parse(args: Vec<String>) -> (params: Result<Params, ParamsError>)
        ensures
            args.len() < 2 ==> params == Err::<Params, ParamsError>(ParamsError::NoFilename),
            args.len() >= 2 ==> params.is_ok() && params.unwrap()@ == args[1]@,
    {
        if args.len() < 2 {
            return Err(ParamsError::NoFilename);
        }
        Ok(Params { filename: args[1].clone() })
    }

    /// The name of the input file.
    pub fn filename(&self) -> (name: &String)
        ensures
            name@ == self@,
    {
        &self.filename
    }
}

} // verus!
