//! Rates as the user reads them.

use vstd::prelude::*;

use crate::binary64::{rounded_tenths, thousandths_to_tenths};
use crate::text::{decimal, push_decimal};

verus! {

/// From 1000 kbit/s on, Mbit/s with one decimal place; below that, kbit/s.
pub open spec fn bitrate_text(kbps: u32) -> Seq<char> {
    if kbps >= 1000 {
        let tenths = rounded_tenths(kbps as nat, 1000);
        decimal(tenths / 10) + "."@ + decimal(tenths % 10) + " Mbps"@
    } else {
        decimal(kbps as nat) + " kbps"@
    }
}

/// Formats a rate. The engine and the window do it the same way.
pub fn format_bitrate(kbps: u32) -> (text: String)
    ensures
        text@ == bitrate_text(kbps),
{
    let mut text = String::new();
    if kbps >= 1000 {
        let tenths: u64 = thousandths_to_tenths(kbps);
        push_decimal(&mut text, tenths / 10);
        text.append(".");
        push_decimal(&mut text, tenths % 10);
        text.append(" Mbps");
    } else {
        push_decimal(&mut text, kbps as u64);
        text.append(" kbps");
    }
    assert(text@ =~= bitrate_text(kbps));
    text
}

/// `text` is a rate of about `kbps` in Mbit/s with one decimal place.
pub open spec fn is_in_mbps(text: Seq<char>, kbps: u32, tenths: nat) -> bool {
    &&& -50 <= 100 * tenths - kbps <= 50
    &&& text == decimal(tenths / 10) + "."@ + decimal(tenths % 10) + " Mbps"@
}

/// A rate from 1000 kbit/s on is read in Mbit/s, right to half of the decimal place that is
/// shown; a lower one in kbit/s, exactly.
pub proof fn law_rates_are_read_to_a_tenth(kbps: u32)
    ensures
        kbps >= 1000 ==> exists|tenths: nat| is_in_mbps(bitrate_text(kbps), kbps, tenths),
        kbps < 1000 ==> bitrate_text(kbps) == decimal(kbps as nat) + " kbps"@,
{
    if kbps >= 1000 {
        crate::binary64::law_tenths_are_the_nearest(kbps as nat);
        assert(is_in_mbps(bitrate_text(kbps), kbps, rounded_tenths(kbps as nat, 1000)));
    }
}

} // verus!
