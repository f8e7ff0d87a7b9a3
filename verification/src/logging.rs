//! The definition builder's logging policy: how verbose the console and the log file
//! are, and what the day's log file is called.
use vstd::prelude::*;

use crate::text::{push_decimal, push_str, spec_decimal, string_from_chars};

verus! {

/// The most detailed level a log sink records.
#[derive(Debug, Clone, Copy, PartialEq, Eq, Structural)]
pub enum LogLevel {
    Error,
    Warn,
    Info,
    Debug,
    Trace,
}

/// The console's level: errors only in the interactive shell or when silenced, otherwise
/// warnings, raised one step per `--verbose` up to tracing.
pub fn console_max_level(interactive: bool, silent: bool, verbose: u8) -> (r: LogLevel)
    ensures
        r == (if interactive || silent {
            LogLevel::Error
        } else if verbose == 0 {
            LogLevel::Warn
        } else if verbose == 1 {
            LogLevel::Info
        } else if verbose == 2 {
            LogLevel::Debug
        } else {
            LogLevel::Trace
        }),
{
    if interactive || silent {
        LogLevel::Error
    } else {
        match verbose {
            0 => LogLevel::Warn,
            1 => LogLevel::Info,
            2 => LogLevel::Debug,
            _ => LogLevel::Trace,
        }
    }
}

/// The log file's level: information, raised one step per `--verbose` up to tracing.
pub fn file_max_level(verbose: u8) -> (r: LogLevel)
    ensures
        r == (if verbose == 0 {
            LogLevel::Info
        } else if verbose == 1 {
            LogLevel::Debug
        } else {
            LogLevel::Trace
        }),
{
    match verbose {
        0 => LogLevel::Info,
        1 => LogLevel::Debug,
        _ => LogLevel::Trace,
    }
}

/// `v` in decimal, zero-padded on the left to `width` digits.
pub open spec fn zero_padded(v: nat, width: nat) -> Seq<char> {
    let digits = spec_decimal(v);
    if digits.len() >= width {
        digits
    } else {
        Seq::new((width - digits.len()) as nat, |i: int| '0') + digits
    }
}

/// A year as `%Y` prints it: zero-padded to four digits, with a sign before years outside
/// 0 to 9999.
pub open spec fn year_text(year: int) -> Seq<char> {
    if 0 <= year <= 9999 {
        zero_padded(year as nat, 4)
    } else if year > 9999 {
        "+"@ + zero_padded(year as nat, 4)
    } else {
        "-"@ + zero_padded((-year) as nat, 4)
    }
}

fn push_padded(out: &mut Vec<char>, v: u64, width: usize)
    requires
        width <= 20,
    ensures
        final(out)@ == old(out)@ + zero_padded(v as nat, width as nat),
{
    let mut digits: Vec<char> = Vec::new();
    push_decimal(&mut digits, v);
    assert(digits@ =~= spec_decimal(v as nat));
    let n = digits.len();
    let ghost start = out@;
    if n < width {
        let mut i: usize = n;
        while i < width
            invariant
                n <= i <= width,
                out@ == start + Seq::new((i - n) as nat, |j: int| '0'),
            decreases width - i,
        {
            out.push('0');
            i = i + 1;
            assert(out@ =~= start + Seq::new((i - n) as nat, |j: int| '0'));
        }
    }
    let ghost mid = out@;
    let mut k: usize = 0;
    while k < n
        invariant
            k <= n == digits@.len(),
            out@ == mid + digits@.take(k as int),
        decreases n - k,
    {
        out.push(digits[k]);
        k = k + 1;
        assert(out@ =~= mid + digits@.take(k as int));
    }
    assert(digits@.take(n as int) =~= digits@);
    assert(out@ =~= start + zero_padded(v as nat, width as nat));
}

/// The log file of a day: `YYYY-MM-DD_def_builder.log`, the date as `%Y-%m-%d` prints it.
pub fn dated_log_file_name(year: i32, month: u32, day: u32) -> (r: String)
    requires
        1 <= month <= 12,
        1 <= day <= 31,
    ensures
        r@ == year_text(year as int) + "-"@ + zero_padded(month as nat, 2) + "-"@ + zero_padded(
            day as nat,
            2,
        ) + "_def_builder.log"@,
{
    let mut out: Vec<char> = Vec::new();
    if year < 0 {
        push_str(&mut out, "-");
        let magnitude: u64 = if year == i32::MIN {
            2147483648u64
        } else {
            (-year) as u64
        };
        push_padded(&mut out, magnitude, 4);
    } else {
        if year > 9999 {
            push_str(&mut out, "+");
        }
        push_padded(&mut out, year as u64, 4);
    }
    let ghost y = out@;
    push_str(&mut out, "-");
    push_padded(&mut out, month as u64, 2);
    push_str(&mut out, "-");
    push_padded(&mut out, day as u64, 2);
    push_str(&mut out, "_def_builder.log");
    proof {
        reveal_strlit("-");
        reveal_strlit("+");
        assert(y =~= year_text(year as int));
        assert(out@ =~= year_text(year as int) + "-"@ + zero_padded(month as nat, 2) + "-"@ + zero_padded(
            day as nat,
            2,
        ) + "_def_builder.log"@);
    }
    string_from_chars(out.as_slice())
}

} // verus!
