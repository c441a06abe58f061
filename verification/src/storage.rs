//! Figures shown on the settings page: how much the cache holds, how many
//! rows the store has, and how many workers the machine gets.

use vstd::prelude::*;
use vstd::arithmetic::div_mod::lemma_div_denominator;
use crate::config::{
    calculate_default_threads, default_threads, get_thumbnail_thread_count, thread_count, AppConfig,
};
use crate::database::Database;
use crate::numbers::{decimal, decimal_digits, padded, zero_padded};

verus! {

/// Bytes in a kilobyte.
pub const KB: u64 = 1024;

/// Bytes in a megabyte.
pub const MB: u64 = 1048576;

/// Bytes in a gigabyte.
pub const GB: u64 = 1073741824;

/// Smallest number that a double-precision float may fail to hold exactly.
pub const DOUBLE_LIMIT: u64 = 9007199254740992;

/// `n / d` rounded to the nearest whole number; a tie goes to the even one.
pub open spec fn rounded_div(n: nat, d: nat) -> nat {
    let q = n / d;
    let r = n % d;
    if 2 * r < d {
        q
    } else if 2 * r > d {
        q + 1
    } else if q % 2 == 0 {
        q
    } else {
        q + 1
    }
}

/// The distance between neighbouring double-precision floats around `n`: one
/// up to 2^53, and twice as much with every further binary digit.
pub open spec fn double_step(n: nat) -> nat
    decreases n,
{
    if n < DOUBLE_LIMIT {
        1
    } else {
        2 * double_step(n / 2)
    }
}

/// The double-precision float nearest to `n`, as a number.
pub open spec fn nearest_double(n: nat) -> nat {
    rounded_div(n, double_step(n)) * double_step(n)
}

/// A size in hundredths of `unit`, as a display with two decimals shows it:
/// the size is first taken to the nearest double-precision float and then
/// rounded to two decimals.
pub open spec fn hundredths(bytes: nat, unit: nat) -> nat {
    rounded_div(nearest_double(bytes) * 100, unit)
}

/// A number of hundredths written with two decimals.
pub open spec fn two_decimals(h: nat) -> Seq<char> {
    decimal_digits(h / 100) + seq!['.'] + zero_padded(h % 100, 2)
}

/// A size in bytes as it is shown to the user: in bytes below one kilobyte,
/// otherwise in the largest binary unit that does not exceed it, with two
/// decimals.
pub open spec fn size_text(bytes: u64) -> Seq<char> {
    if bytes >= GB {
        two_decimals(hundredths(bytes as nat, GB as nat)) + " GB"@
    } else if bytes >= MB {
        two_decimals(hundredths(bytes as nat, MB as nat)) + " MB"@
    } else if bytes >= KB {
        two_decimals(hundredths(bytes as nat, KB as nat)) + " KB"@
    } else {
        decimal_digits(bytes as nat) + " B"@
    }
}

fn rounded_division(n: u128, d: u128) -> (q: u128)
    requires
        0 < d <= u64::MAX,
        n < u128::MAX / 2,
    ensures
        q == rounded_div(n as nat, d as nat),
{
    let q = n / d;
    let r = n % d;
    if 2 * r < d {
        q
    } else if 2 * r > d {
        q + 1
    } else if q % 2 == 0 {
        q
    } else {
        q + 1
    }
}

/// The double-precision float nearest to `bytes`.
fn to_nearest_double(bytes: u64) -> (nearest: u128)
    ensures
        nearest == nearest_double(bytes as nat),
        nearest <= 36893488147419103232,
{
    let mut step: u64 = 1;
    let mut top: u64 = bytes;
    while top >= DOUBLE_LIMIT
        invariant
            1 <= step,
            step == 1 || step * 4503599627370496 <= bytes,
            top == bytes / step,
            step * top <= bytes,
            double_step(bytes as nat) == step * double_step(top as nat),
        decreases top,
    {
        proof {
            lemma_div_denominator(bytes as int, step as int, 2);
            assert(2 * step * (top / 2) <= bytes && (2 * step) * 4503599627370496 <= bytes)
                by (nonlinear_arith)
                requires
                    step * top <= bytes,
                    top >= 9007199254740992,
                    1 <= step,
            ;
            assert(step * (2 * double_step((top / 2) as nat)) == (2 * step) * double_step(
                (top / 2) as nat,
            )) by (nonlinear_arith);
        }
        top = top / 2;
        step = step * 2;
    }
    assert(double_step(top as nat) == 1);
    assert(double_step(bytes as nat) == step) by (nonlinear_arith)
        requires
            double_step(bytes as nat) == step * double_step(top as nat),
            double_step(top as nat) == 1,
    ;
    assert(step <= 4096) by (nonlinear_arith)
        requires
            step == 1 || step * 4503599627370496 <= bytes,
            bytes <= u64::MAX,
    ;
    let q = rounded_division(bytes as u128, step as u128);
    assert(q * step <= 36893488147419103232) by (nonlinear_arith)
        requires
            q <= top + 1,
            step * top <= bytes,
            bytes <= u64::MAX,
            1 <= step <= 4096,
    ;
    q * (step as u128)
}

fn write_hundredths(bytes: u64, unit: u64, suffix: &str) -> (text: String)
    requires
        unit > 0,
    ensures
        text@ == two_decimals(hundredths(bytes as nat, unit as nat)) + suffix@,
{
    let nearest = to_nearest_double(bytes);
    let h = rounded_division(nearest * 100, unit as u128);
    assert(h <= 3689348814741910323201) by (nonlinear_arith)
        requires
            h <= (nearest * 100) / (unit as int) + 1,
            nearest <= 36893488147419103232,
            unit >= 1,
    ;
    let whole = h / 100;
    let fraction = (h % 100) as u64;
    let mut text = String::new();
    if whole <= u64::MAX as u128 {
        text.append(decimal(whole as u64).as_str());
    } else {
        // A whole part this large only arises for a unit of a few bytes; it is
        // written in two runs of digits.
        text.append(decimal((whole / 10) as u64).as_str());
        text.append(decimal((whole % 10) as u64).as_str());
        assert(text@ =~= decimal_digits(whole as nat)) by {
            crate::numbers::lemma_decimal_length((whole % 10) as nat);
        }
    }
    text.push('.');
    text.append(padded(fraction, 2).as_str());
    text.append(suffix);
    assert(text@ =~= two_decimals(h as nat) + suffix@);
    text
}

/// Writes a number of bytes for the user to read, such as `1.50 MB`.
pub fn format_bytes(bytes: u64) -> (text: String)
    ensures
        text@ == size_text(bytes),
{
    if bytes >= GB {
        write_hundredths(bytes, GB, " GB")
    } else if bytes >= MB {
        write_hundredths(bytes, MB, " MB")
    } else if bytes >= KB {
        write_hundredths(bytes, KB, " KB")
    } else {
        let mut text = decimal(bytes);
        text.append(" B");
        text
    }
}

/// Sizes that a double-precision float holds exactly are shown as they are:
/// only the rounding to two decimals applies.
pub proof fn lemma_small_sizes_are_exact(bytes: nat, unit: nat)
    requires
        bytes < DOUBLE_LIMIT,
    ensures
        nearest_double(bytes) == bytes,
        hundredths(bytes, unit) == rounded_div(bytes * 100, unit),
{
    assert(double_step(bytes) == 1);
    assert(bytes / 1 == bytes && bytes % 1 == 0);
}

// ---------------------------------------------------------------------------
// Summaries
// ---------------------------------------------------------------------------

/// What the machine offers and what is made of it.
#[derive(Clone, Copy, Debug, PartialEq, Eq, Structural)]
pub struct SystemInfo {
    pub cpu_count: usize,
    pub current_threads: usize,
    pub recommended_threads: usize,
}

/// Describes the worker pool for given settings on a machine with
/// `cpu_count` logical cores.
pub fn get_system_info(config: &AppConfig, cpu_count: usize) -> (info: SystemInfo)
    ensures
        info.cpu_count == cpu_count,
        info.current_threads == thread_count(*config, cpu_count as int),
        info.recommended_threads == default_threads(cpu_count as int),
{
    SystemInfo {
        cpu_count,
        current_threads: get_thumbnail_thread_count(config, cpu_count),
        recommended_threads: calculate_default_threads(cpu_count),
    }
}

/// How much is stored.
#[derive(Debug)]
pub struct StorageInfo {
    pub cache_size_bytes: u64,
    pub cache_size_display: String,
    pub label_count: i64,
    pub session_count: i64,
}

/// A count as a signed number; a count too large for one is shown as the
/// largest there is.
pub open spec fn shown_count(count: nat) -> i64 {
    if count <= i64::MAX {
        count as i64
    } else {
        i64::MAX
    }
}

/// Turns a count into the signed number it is shown as.
pub fn count_for_display(count: usize) -> (shown: i64)
    ensures
        shown == shown_count(count as nat),
{
    if count as u128 <= i64::MAX as u128 {
        count as i64
    } else {
        i64::MAX
    }
}

/// Describes what the store and the cache hold, given the size of the cache
/// directory in bytes.
pub fn get_storage_info(db: &Database, cache_size_bytes: u64) -> (info: StorageInfo)
    ensures
        info.cache_size_bytes == cache_size_bytes,
        info.cache_size_display@ == size_text(cache_size_bytes),
        info.label_count == shown_count(db@.labels.len()),
        info.session_count == shown_count(db@.sessions.len()),
{
    StorageInfo {
        cache_size_bytes,
        cache_size_display: format_bytes(cache_size_bytes),
        label_count: count_for_display(db.get_label_count()),
        session_count: count_for_display(db.get_session_count()),
    }
}

} // verus!
