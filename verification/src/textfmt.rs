//! Display formatting for the miner dashboard, and parsing of the decimal
//! OWE amount given on the command line.

use vstd::prelude::*;
use vstd::string::*;
use crate::decfmt::{dec_chars, u64_to_dec};

verus! {

/// Two-digit zero-padded rendering of a value below one hundred.
pub open spec fn pad2_chars(n: nat) -> Seq<char>
    recommends
        n < 100,
{
    if n < 10 {
        seq!['0'] + dec_chars(n)
    } else {
        dec_chars(n)
    }
}

fn pad2(n: u64) -> (r: String)
    requires
        n < 100,
    ensures
        r@ == pad2_chars(n as nat),
{
    if n < 10 {
        let mut s = "0".to_owned();
        s.append(u64_to_dec(n).as_str());
        proof {
            reveal_strlit("0");
            assert(s@ =~= pad2_chars(n as nat));
        }
        s
    } else {
        u64_to_dec(n)
    }
}

/// A rate scaled by `div` to two decimal places, rounding half away from
/// zero: the scaled hundredths of `hps / div`.
pub open spec fn scaled_hundredths(hps: nat, div: nat) -> nat
    recommends
        div >= 2,
{
    (hps * 100 + div / 2) / div
}

/// The dashboard rendering of a hashrate: two decimals and a unit from
/// `GH/s` down to plain `H/s`.
pub open spec fn format_hashrate_chars(hps: nat) -> Seq<char> {
    if hps >= 1000000000 {
        let q = scaled_hundredths(hps, 1000000000);
        dec_chars(q / 100) + seq!['.'] + pad2_chars(q % 100) + " GH/s"@
    } else if hps >= 1000000 {
        let q = scaled_hundredths(hps, 1000000);
        dec_chars(q / 100) + seq!['.'] + pad2_chars(q % 100) + " MH/s"@
    } else if hps >= 1000 {
        let q = scaled_hundredths(hps, 1000);
        dec_chars(q / 100) + seq!['.'] + pad2_chars(q % 100) + " KH/s"@
    } else {
        dec_chars(hps) + " H/s"@
    }
}

/// Render a hashrate for the dashboard.
pub fn format_hashrate(hps: u64) -> (r: String)
    ensures
        r@ == format_hashrate_chars(hps as nat),
{
    if hps >= 1000000000 {
        format_scaled(hps, 1000000000, " GH/s")
    } else if hps >= 1000000 {
        format_scaled(hps, 1000000, " MH/s")
    } else if hps >= 1000 {
        format_scaled(hps, 1000, " KH/s")
    } else {
        let mut s = u64_to_dec(hps);
        s.append(" H/s");
        s
    }
}

/// The shared scaled rendering behind `format_hashrate`.
fn format_scaled(hps: u64, div: u64, unit: &str) -> (r: String)
    requires
        2 <= div <= 1000000000,
    ensures
        r@ == dec_chars(scaled_hundredths(hps as nat, div as nat) / 100) + seq!['.'] + pad2_chars(
            scaled_hundredths(hps as nat, div as nat) % 100,
        ) + unit@,
{
    let q: u128 = ((hps as u128) * 100 + ((div / 2) as u128)) / (div as u128);
    proof {
        assert(q == scaled_hundredths(hps as nat, div as nat));
        vstd::arithmetic::div_mod::lemma_fundamental_div_mod(q as int, 100);
    }
    let whole: u128 = q / 100;
    let frac: u64 = (q % 100) as u64;
    let mut s = crate::decfmt::u128_to_dec(whole);
    s.append(".");
    proof {
        reveal_strlit(".");
    }
    s.append(pad2(frac).as_str());
    s.append(unit);
    s
}

/// The dashboard rendering of an uptime: `h:mm:ss`, or `m:ss` under an
/// hour.
pub open spec fn format_duration_chars(seconds: nat) -> Seq<char> {
    let hours = seconds / 3600;
    let minutes = (seconds % 3600) / 60;
    let secs = seconds % 60;
    if hours > 0 {
        dec_chars(hours) + seq![':'] + pad2_chars(minutes) + seq![':'] + pad2_chars(secs)
    } else {
        dec_chars(minutes) + seq![':'] + pad2_chars(secs)
    }
}

/// Render an uptime for the dashboard.
pub fn format_duration(seconds: u64) -> (r: String)
    ensures
        r@ == format_duration_chars(seconds as nat),
{
    let hours = seconds / 3600;
    let minutes = (seconds % 3600) / 60;
    let secs = seconds % 60;
    proof {
        reveal_strlit(":");
    }
    if hours > 0 {
        let mut s = u64_to_dec(hours);
        s.append(":");
        s.append(pad2(minutes).as_str());
        s.append(":");
        s.append(pad2(secs).as_str());
        s
    } else {
        let mut s = u64_to_dec(minutes);
        s.append(":");
        s.append(pad2(secs).as_str());
        s
    }
}

} // verus!
