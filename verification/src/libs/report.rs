use crate::libs::client::ClientSummary;
use crate::pow10;
use vstd::prelude::*;
use vstd::string::StringExecFns;

verus! {

/// The decimal digit `d` as text.
pub open spec fn digit_text(d: int) -> Seq<char> {
    if d == 0 {
        "0"@
    } else if d == 1 {
        "1"@
    } else if d == 2 {
        "2"@
    } else if d == 3 {
        "3"@
    } else if d == 4 {
        "4"@
    } else if d == 5 {
        "5"@
    } else if d == 6 {
        "6"@
    } else if d == 7 {
        "7"@
    } else if d == 8 {
        "8"@
    } else {
        "9"@
    }
}

/// The natural number `n` in decimal, without leading zeros.
pub open spec fn number_text(n: nat) -> Seq<char>
    decreases n,
{
    if n < 10 {
        digit_text(n as int)
    } else {
        number_text(n / 10) + digit_text((n % 10) as int)
    }
}

/// The fraction `f / 10^width` in decimal digits, without trailing zeros:
/// nothing at all for zero.
pub open spec fn fraction_text(f: nat, width: nat) -> Seq<char>
    decreases width,
{
    if f == 0 || width == 0 {
        Seq::empty()
    } else {
        let unit = pow10((width - 1) as nat);
        digit_text(f as int / unit) + fraction_text((f as int % unit) as nat, (width - 1) as nat)
    }
}

/// The amount `v`, in units of `10^-8`, as a decimal number: a sign where it
/// is negative, the whole part, and the fraction where there is one.
pub open spec fn amount_text(v: int) -> Seq<char> {
    let mag = if v < 0 {
        -v
    } else {
        v
    };
    let sign = if v < 0 {
        "-"@
    } else {
        Seq::empty()
    };
    let whole = number_text((mag / 100_000_000) as nat);
    let frac = (mag % 100_000_000) as nat;
    if frac == 0 {
        sign + whole
    } else {
        sign + whole + "."@ + fraction_text(frac, 8)
    }
}

/// A lock as the report shows it.
pub open spec fn bool_text(b: bool) -> Seq<char> {
    if b {
        "true"@
    } else {
        "false"@
    }
}

/// One line of the report: id, available, held, total and lock, separated
/// by commas.
pub open spec fn line_text(line: ClientSummary) -> Seq<char> {
    number_text(line.client as nat) + ","@ + amount_text(line.available as int) + ","@
        + amount_text(line.held as int) + ","@ + amount_text(line.total as int) + ","@ + bool_text(
        line.locked,
    )
}

/// The report: the header, then each line on a line of its own.
pub open spec fn report_text(lines: Seq<ClientSummary>) -> Seq<char>
    decreases lines.len(),
{
    if lines.len() == 0 {
        "client,available,held,total,locked"@
    } else {
        report_text(lines.drop_last()) + "\n"@ + line_text(lines.last())
    }
}

/// The digit `d` as text.
fn digit_str(d: u8) -> (s: &'static str)
    requires
        d < 10,
    ensures
        s@ == digit_text(d as int),
{
    if d == 0 {
        "0"
    } else if d == 1 {
        "1"
    } else if d == 2 {
        "2"
    } else if d == 3 {
        "3"
    } else if d == 4 {
        "4"
    } else if d == 5 {
        "5"
    } else if d == 6 {
        "6"
    } else if d == 7 {
        "7"
    } else if d == 8 {
        "8"
    } else {
        "9"
    }
}

/// `10^e`.
fn power_of_ten(e: u32) -> (p: u128)
    requires
        e <= 8,
    ensures
        p == pow10(e as nat),
        1 <= p <= 100_000_000,
{
    proof {
        reveal_with_fuel(pow10, 10);
    }
    if e == 0 {
        1
    } else if e == 1 {
        10
    } else if e == 2 {
        100
    } else if e == 3 {
        1_000
    } else if e == 4 {
        10_000
    } else if e == 5 {
        100_000
    } else if e == 6 {
        1_000_000
    } else if e == 7 {
        10_000_000
    } else {
        100_000_000
    }
}

/// Appends `n` in decimal.
pub fn push_number(out: &mut String, n: u128)
    ensures
        final(out)@ == old(out)@ + number_text(n as nat),
    decreases n,
{
    if n >= 10 {
        push_number(out, n / 10);
    }
    out.append(digit_str((n % 10) as u8));
    assert(out@ =~= old(out)@ + number_text(n as nat));
}

/// Appends the digits of the fraction `f / 10^width`.
fn push_fraction(out: &mut String, f: u128, width: u32)
    requires
        width <= 8,
        f < pow10(width as nat),
    ensures
        final(out)@ == old(out)@ + fraction_text(f as nat, width as nat),
    decreases width,
{
    if f == 0 || width == 0 {
        assert(out@ =~= old(out)@ + fraction_text(f as nat, width as nat));
        return ;
    }
    let unit = power_of_ten(width - 1);
    assert(f / unit < 10 && f % unit < unit) by (nonlinear_arith)
        requires
            f < 10 * unit,
            unit > 0,
    ;
    out.append(digit_str((f / unit) as u8));
    push_fraction(out, f % unit, width - 1);
    assert(out@ =~= old(out)@ + fraction_text(f as nat, width as nat));
}

/// Appends the amount `v` as a decimal number.
pub fn push_amount(out: &mut String, v: i128)
    ensures
        final(out)@ == old(out)@ + amount_text(v as int),
{
    let mag: u128 = if v < 0 {
        (-(v + 1)) as u128 + 1
    } else {
        v as u128
    };
    if v < 0 {
        out.append("-");
    }
    push_number(out, mag / 100_000_000);
    let frac = mag % 100_000_000;
    if frac != 0 {
        out.append(".");
        proof {
            reveal_with_fuel(pow10, 10);
        }
        push_fraction(out, frac, 8);
    }
    assert(out@ =~= old(out)@ + amount_text(v as int));
}

/// Appends one line of the report.
pub fn push_line(out: &mut String, line: &ClientSummary)
    ensures
        final(out)@ == old(out)@ + line_text(*line),
{
    push_number(out, line.client as u128);
    out.append(",");
    push_amount(out, line.available);
    out.append(",");
    push_amount(out, line.held);
    out.append(",");
    push_amount(out, line.total);
    out.append(",");
    if line.locked {
        out.append("true");
    } else {
        out.append("false");
    }
    assert(out@ =~= old(out)@ + line_text(*line));
}

/// The report as text: the header, then one line for each client.
pub fn render(lines: &Vec<ClientSummary>) -> (text: String)
    ensures
        text@ == report_text(lines@),
{
    let mut text = "client,available,held,total,locked".to_owned();
    let mut i: usize = 0;
    while i < lines.len()
        invariant
            i <= lines.len(),
            text@ == report_text(lines@.take(i as int)),
        decreases lines.len() - i,
    {
        assert(lines@.take(i + 1).drop_last() =~= lines@.take(i as int));
        text.append("\n");
        push_line(&mut text, &lines[i]);
        i = i + 1;
    }
    assert(lines@.take(i as int) =~= lines@);
    text
}

} // verus!
