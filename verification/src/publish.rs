//! Rendering of derived signals for publication.
//!
//! Each published key holds a flat decimal or word string. The formatter
//! turns a fixed-point value into its canonical decimal spelling: the whole
//! part without leading zeros, and — only when the value has a fractional
//! part — a point followed by exactly six fractional digits.

use crate::engine::{AcStatus, BatteryStatus, DerivedState};
use crate::fixed::{fp_ok, iabs, SCALE};
use crate::telemetry::{lemma_pow10_le, pow10};
use vstd::prelude::*;
use vstd::string::*;

verus! {

/// The character of a single decimal digit.
pub open spec fn digit_char(d: int) -> char {
    if d == 0 {
        '0'
    } else if d == 1 {
        '1'
    } else if d == 2 {
        '2'
    } else if d == 3 {
        '3'
    } else if d == 4 {
        '4'
    } else if d == 5 {
        '5'
    } else if d == 6 {
        '6'
    } else if d == 7 {
        '7'
    } else if d == 8 {
        '8'
    } else {
        '9'
    }
}

/// Decimal spelling of a nonnegative number, most significant digit first,
/// without leading zeros (a lone zero for zero).
pub open spec fn spec_digits(n: int) -> Seq<char>
    decreases n,
{
    if n < 10 {
        seq![digit_char(n)]
    } else {
        spec_digits(n / 10) + seq![digit_char(n % 10)]
    }
}

/// A fraction of a unit, spelled with exactly six digits, zero-padded on
/// the left.
pub open spec fn pad6(frac: int) -> Seq<char> {
    Seq::new((6 - spec_digits(frac).len()) as nat, |i: int| '0') + spec_digits(frac)
}

/// The canonical decimal spelling of a fixed-point value: optional minus
/// sign, the whole part, and six fractional digits behind a point when the
/// value is not a whole number.
pub open spec fn spec_format_micro(v: int) -> Seq<char> {
    let a = iabs(v);
    let whole = a / (SCALE as int);
    let frac = a % (SCALE as int);
    let sign: Seq<char> = if v < 0 {
        seq!['-']
    } else {
        Seq::empty()
    };
    let tail: Seq<char> = if frac == 0 {
        Seq::empty()
    } else {
        seq!['.'] + pad6(frac)
    };
    sign + spec_digits(whole) + tail
}

/// A positive number's spelling is as long as its decade demands.
pub proof fn lemma_digits_len(n: int)
    requires
        1 <= n,
    ensures
        1 <= spec_digits(n).len(),
        pow10((spec_digits(n).len() - 1) as nat) <= n < pow10(spec_digits(n).len() as nat),
    decreases n,
{
    reveal_with_fuel(pow10, 3);
    if n < 10 {
    } else {
        lemma_digits_len(n / 10);
        let l = spec_digits(n / 10).len();
        assert(spec_digits(n).len() == l + 1);
        assert(n == 10 * (n / 10) + n % 10);
        assert(pow10((l + 1 - 1) as nat) == 10 * pow10((l - 1) as nat));
        assert(pow10((l + 1) as nat) == 10 * pow10(l as nat));
    }
}

/// The one-character string of a decimal digit.
fn digit_str(d: u64) -> (r: &'static str)
    requires
        d <= 9,
    ensures
        r@ == seq![digit_char(d as int)],
{
    proof {
        reveal_strlit("0");
        reveal_strlit("1");
        reveal_strlit("2");
        reveal_strlit("3");
        reveal_strlit("4");
        reveal_strlit("5");
        reveal_strlit("6");
        reveal_strlit("7");
        reveal_strlit("8");
        reveal_strlit("9");
    }
    let r: &'static str = if d == 0 {
        "0"
    } else if d == 1 {
        "1"
    } else if d == 2 {
        "2"
    } else if d == 3 {
        "3"
    } else if d == 4 {
        "4"
    } else if d == 5 {
        "5"
    } else if d == 6 {
        "6"
    } else if d == 7 {
        "7"
    } else if d == 8 {
        "8"
    } else {
        "9"
    };
    proof {
        assert(r@ =~= seq![digit_char(d as int)]);
    }
    r
}

/// The decimal spelling of a number, matching [`spec_digits`].
fn digits_string(n: u64) -> (s: String)
    ensures
        s@ == spec_digits(n as int),
    decreases n,
{
    if n < 10 {
        digit_str(n).to_owned()
    } else {
        let mut s = digits_string(n / 10);
        s.append(digit_str(n % 10));
        proof {
            assert((n / 10) as int == n as int / 10);
            assert((n % 10) as int == n as int % 10);
        }
        s
    }
}

/// Formats a fixed-point value as its canonical decimal spelling.
#[verifier::loop_isolation(false)]
pub fn format_micro(v: i64) -> (s: String)
    requires
        fp_ok(v as int),
    ensures
        s@ == spec_format_micro(v as int),
{
    let a: u64 = if v < 0 {
        (-v) as u64
    } else {
        v as u64
    };
    proof {
        assert(a as int == iabs(v as int));
    }
    let whole: u64 = a / 1_000_000;
    let frac: u64 = a % 1_000_000;
    let mut out: String = String::new();
    if v < 0 {
        proof {
            reveal_strlit("-");
        }
        out.append("-");
        proof {
            assert(out@ =~= seq!['-']);
        }
    }
    let ds = digits_string(whole);
    out.append(ds.as_str());
    if frac == 0 {
        proof {
            let sign: Seq<char> = if v < 0 {
                seq!['-']
            } else {
                Seq::<char>::empty()
            };
            assert(out@ =~= sign + spec_digits(whole as int) + Seq::<char>::empty());
        }
        return out;
    }
    proof {
        reveal_strlit(".");
    }
    out.append(".");
    let ghost base: Seq<char> = out@;
    let mut m: u64 = 100_000;
    let ghost mut zc: int = 0;
    proof {
        reveal_with_fuel(pow10, 8);
        assert(pow10(5) == 100_000 && pow10(6) == 1_000_000);
        assert(Seq::new(0, |i: int| '0') =~= Seq::<char>::empty());
    }
    while frac < m
        invariant
            0 <= zc <= 5,
            m as int == pow10((5 - zc) as nat),
            frac < pow10((6 - zc) as nat),
            out@ == base + Seq::new(zc as nat, |i: int| '0'),
        decreases m,
    {
        proof {
            reveal_with_fuel(pow10, 8);
            reveal_strlit("0");
            if zc == 5 {
                assert(m == 1);
                assert(false);
            }
        }
        out.append("0");
        proof {
            zc = zc + 1;
            assert(out@ =~= base + Seq::new(zc as nat, |i: int| '0'));
            assert(pow10((5 - (zc - 1)) as nat) == 10 * pow10((5 - zc) as nat));
        }
        m = m / 10;
    }
    proof {
        lemma_digits_len(frac as int);
        let l = spec_digits(frac as int).len() as int;
        assert(l == 6 - zc) by {
            if l <= 5 - zc {
                lemma_pow10_le(l as nat, (5 - zc) as nat);
            }
            if l >= 7 - zc {
                lemma_pow10_le((6 - zc) as nat, (l - 1) as nat);
            }
        };
    }
    let fd = digits_string(frac);
    out.append(fd.as_str());
    proof {
        let sign: Seq<char> = if v < 0 {
            seq!['-']
        } else {
            Seq::<char>::empty()
        };
        assert(Seq::new(zc as nat, |i: int| '0') =~= Seq::new(
            (6 - spec_digits(frac as int).len()) as nat,
            |i: int| '0',
        ));
        assert(out@ =~= sign + spec_digits(whole as int) + (seq!['.'] + pad6(frac as int)));
    }
    out
}

/// The word a derived AC status publishes.
pub open spec fn spec_ac_label(a: AcStatus) -> Seq<char> {
    match a {
        AcStatus::Disconnected => "Disconnected"@,
        AcStatus::Connected => "Connected"@,
        AcStatus::ConnectedSlow => "Connected slow"@,
        AcStatus::Unknown => "Unknown"@,
    }
}

/// The word a derived battery status publishes.
pub open spec fn spec_battery_label(b: BatteryStatus) -> Seq<char> {
    match b {
        BatteryStatus::Charging => "Charging"@,
        BatteryStatus::Discharging => "Discharging"@,
        BatteryStatus::Full => "Full"@,
    }
}

/// The word for an AC status.
pub fn ac_label(a: AcStatus) -> (r: &'static str)
    ensures
        r@ == spec_ac_label(a),
{
    match a {
        AcStatus::Disconnected => "Disconnected",
        AcStatus::Connected => "Connected",
        AcStatus::ConnectedSlow => "Connected slow",
        AcStatus::Unknown => "Unknown",
    }
}

/// The word for a battery status.
pub fn battery_label(b: BatteryStatus) -> (r: &'static str)
    ensures
        r@ == spec_battery_label(b),
{
    match b {
        BatteryStatus::Charging => "Charging",
        BatteryStatus::Discharging => "Discharging",
        BatteryStatus::Full => "Full",
    }
}

/// One published key.
#[derive(Clone, Copy, PartialEq, Eq, Structural, Debug)]
pub enum PublishKey {
    AcStatus,
    BatteryPercent,
    BatteryStatus,
    SecsUntilBatteryFull,
    SecsUntilShutdownRequest,
}

/// The file name a key is published under.
pub fn key_file_name(k: PublishKey) -> (r: &'static str)
    ensures
        k == PublishKey::AcStatus ==> r@ == "ac_status"@,
        k == PublishKey::BatteryPercent ==> r@ == "battery_percent"@,
        k == PublishKey::BatteryStatus ==> r@ == "battery_status"@,
        k == PublishKey::SecsUntilBatteryFull ==> r@ == "secs_until_battery_full"@,
        k == PublishKey::SecsUntilShutdownRequest ==> r@ == "secs_until_shutdown_request"@,
{
    match k {
        PublishKey::AcStatus => "ac_status",
        PublishKey::BatteryPercent => "battery_percent",
        PublishKey::BatteryStatus => "battery_status",
        PublishKey::SecsUntilBatteryFull => "secs_until_battery_full",
        PublishKey::SecsUntilShutdownRequest => "secs_until_shutdown_request",
    }
}

impl DerivedState {
    /// The published AC status word.
    pub fn ac_status_text(&self) -> (r: &'static str)
        ensures
            r@ == spec_ac_label(self.ac_status),
    {
        ac_label(self.ac_status)
    }

    /// The published battery percentage, when there is one.
    pub fn battery_percent_text(&self) -> (r: Option<String>)
        requires
            self.wf(),
        ensures
            r is Some <==> self.battery_percent is Some,
            r matches Some(s) ==> self.battery_percent matches Some(v) && s@ == spec_format_micro(
                v as int,
            ),
    {
        match self.battery_percent {
            Some(v) => Some(format_micro(v)),
            None => None,
        }
    }

    /// The published battery status word, when one is determinable.
    pub fn battery_status_text(&self) -> (r: Option<&'static str>)
        ensures
            r is Some <==> self.battery_status is Some,
            r matches Some(s) ==> self.battery_status matches Some(b) && s@ == spec_battery_label(
                b,
            ),
    {
        match self.battery_status {
            Some(b) => Some(battery_label(b)),
            None => None,
        }
    }

    /// The published time-to-full projection, when there is one.
    pub fn secs_until_full_text(&self) -> (r: Option<String>)
        requires
            self.wf(),
        ensures
            r is Some <==> self.secs_until_full is Some,
            r matches Some(s) ==> self.secs_until_full matches Some(v) && s@ == spec_format_micro(
                v as int,
            ),
    {
        match self.secs_until_full {
            Some(v) => Some(format_micro(v)),
            None => None,
        }
    }

    /// The published time-to-shutdown projection, when there is one.
    pub fn secs_until_shutdown_text(&self) -> (r: Option<String>)
        requires
            self.wf(),
        ensures
            r is Some <==> self.secs_until_shutdown is Some,
            r matches Some(s) ==> self.secs_until_shutdown matches Some(v) && s@
                == spec_format_micro(v as int),
    {
        match self.secs_until_shutdown {
            Some(v) => Some(format_micro(v)),
            None => None,
        }
    }
}

} // verus!
