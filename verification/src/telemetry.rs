//! Telemetry normalization.
//!
//! Raw sysfs readings arrive as trimmed strings. [`parse_micro`] turns a
//! decimal string into a fixed-point reading, rejecting anything malformed
//! or outside the representable range, so that a non-finite or nonsensical
//! value can never enter a derivation. [`WarnLog`] records which source
//! files have already produced a read diagnostic, so each missing path is
//! reported exactly once per process. [`NamingScheme`] resolves the two
//! sysfs naming families (`charge_*`/`energy_*`, `current_now`/`power_now`).

use crate::fixed::{iabs, opt64, FP_MAX, SCALE};
use vstd::prelude::*;
use vstd::string::*;

verus! {

/// A decimal digit.
pub open spec fn is_digit(c: char) -> bool {
    48 <= c as int && c as int <= 57
}

/// Numeric value of a decimal digit.
pub open spec fn digit_val(c: char) -> int {
    c as int - 48
}

/// Every character of the sequence is a decimal digit.
pub open spec fn all_digits(s: Seq<char>) -> bool {
    forall|i: int| 0 <= i < s.len() ==> is_digit(#[trigger] s[i])
}

/// The number a digit sequence denotes, most significant digit first.
pub open spec fn digits_val(s: Seq<char>) -> int
    decreases s.len(),
{
    if s.len() == 0 {
        0
    } else {
        digits_val(s.drop_last()) * 10 + digit_val(s.last())
    }
}

/// Powers of ten.
pub open spec fn pow10(n: nat) -> int
    decreases n,
{
    if n == 0 {
        1
    } else {
        10 * pow10((n - 1) as nat)
    }
}

/// Index of the first `'.'` at or after position `i`, or the length when
/// there is none.
pub open spec fn first_dot_from(s: Seq<char>, i: int) -> int
    decreases s.len() - i,
{
    if i < 0 || i >= s.len() {
        s.len() as int
    } else if s[i] == '.' {
        i
    } else {
        first_dot_from(s, i + 1)
    }
}

/// Index of the first `'.'` of the sequence, or the length when there is none.
pub open spec fn first_dot(s: Seq<char>) -> int {
    first_dot_from(s, 0)
}

/// The digits behind the decimal point, empty when there is no point.
pub open spec fn frac_part(s: Seq<char>) -> Seq<char> {
    let k = first_dot(s);
    if k < s.len() {
        s.skip(k + 1)
    } else {
        Seq::empty()
    }
}

/// The value of a fraction in micro-units: the first six fractional digits,
/// padded with zeros on the right. Digits beyond the sixth are below the
/// resolution of the fixed point and are ignored.
pub open spec fn frac_scaled(f: Seq<char>) -> int {
    if f.len() >= 6 {
        digits_val(f.take(6))
    } else {
        digits_val(f) * pow10((6 - f.len()) as nat)
    }
}

/// An unsigned decimal number `digit+ ('.' digit*)?` in micro-units, or
/// nothing when the sequence has another shape.
pub open spec fn spec_parse_unsigned(s: Seq<char>) -> Option<int> {
    let k = first_dot(s);
    let f = frac_part(s);
    if k >= 1 && all_digits(s.take(k)) && all_digits(f) {
        Some(digits_val(s.take(k)) * SCALE as int + frac_scaled(f))
    } else {
        None
    }
}

/// What [`parse_micro`] accepts and returns: an optionally signed decimal
/// number, in micro-units, provided its magnitude stays representable.
/// Everything else — including the spellings of non-finite values — is
/// absent.
pub open spec fn spec_parse_micro(s: Seq<char>) -> Option<int> {
    if s.len() == 0 {
        None
    } else {
        let neg = s[0] == '-';
        let body = if s[0] == '-' || s[0] == '+' {
            s.drop_first()
        } else {
            s
        };
        match spec_parse_unsigned(body) {
            Some(v) => if v <= FP_MAX as int {
                Some(
                    if neg {
                        -v
                    } else {
                        v
                    },
                )
            } else {
                None
            },
            None => None,
        }
    }
}

/// A digit-sequence value is nonnegative and below `pow10` of its length.
pub proof fn lemma_digits_val_bounds(s: Seq<char>)
    requires
        all_digits(s),
    ensures
        0 <= digits_val(s) < pow10(s.len()),
    decreases s.len(),
{
    if s.len() == 0 {
    } else {
        let p = s.drop_last();
        assert(all_digits(p)) by {
            assert(forall|i: int| 0 <= i < p.len() ==> p[i] == s[i] && is_digit(#[trigger] s[i]));
        };
        lemma_digits_val_bounds(p);
        assert(is_digit(s.last()));
        assert(pow10(s.len()) == 10 * pow10((s.len() - 1) as nat));
    }
}

/// `pow10` turns addition into multiplication.
pub proof fn lemma_pow10_add(a: nat, b: nat)
    ensures
        pow10(a + b) == pow10(a) * pow10(b),
        pow10(a) >= 1,
        pow10(b) >= 1,
    decreases a,
{
    if a == 0 {
        lemma_pow10_pos(b);
    } else {
        lemma_pow10_add((a - 1) as nat, b);
        assert(pow10(a + b) == 10 * pow10((a + b - 1) as nat));
        assert(10 * (pow10((a - 1) as nat) * pow10(b)) == (10 * pow10((a - 1) as nat)) * pow10(b))
            by (nonlinear_arith);
    }
}

/// `pow10` is monotone.
pub proof fn lemma_pow10_le(a: nat, b: nat)
    requires
        a <= b,
    ensures
        pow10(a) <= pow10(b),
{
    lemma_pow10_add((b - a) as nat, a);
    assert(pow10((b - a) as nat) * pow10(a) >= 1 * pow10(a)) by (nonlinear_arith)
        requires
            pow10((b - a) as nat) >= 1,
            pow10(a) >= 1,
    ;
}

/// `pow10` is positive.
pub proof fn lemma_pow10_pos(n: nat)
    ensures
        pow10(n) >= 1,
    decreases n,
{
    if n > 0 {
        lemma_pow10_pos((n - 1) as nat);
    }
}

/// A fraction in micro-units lies in `[0, 1_000_000)`.
pub proof fn lemma_frac_scaled_bounds(f: Seq<char>)
    requires
        all_digits(f),
    ensures
        0 <= frac_scaled(f) < 1_000_000,
{
    reveal_with_fuel(pow10, 8);
    if f.len() >= 6 {
        let t = f.take(6);
        assert(all_digits(t)) by {
            assert(forall|i: int| 0 <= i < t.len() ==> t[i] == f[i] && is_digit(#[trigger] f[i]));
        };
        lemma_digits_val_bounds(t);
    } else {
        lemma_digits_val_bounds(f);
        let n = f.len();
        lemma_pow10_add(n, (6 - n) as nat);
        assert(digits_val(f) * pow10((6 - n) as nat) <= (pow10(n) - 1) * pow10((6 - n) as nat)
            && 0 <= digits_val(f) * pow10((6 - n) as nat)) by (nonlinear_arith)
            requires
                0 <= digits_val(f) < pow10(n),
                pow10((6 - n) as nat) >= 1,
        ;
        assert((pow10(n) - 1) * pow10((6 - n) as nat) == pow10(n) * pow10((6 - n) as nat) - pow10(
            (6 - n) as nat,
        )) by (nonlinear_arith);
    }
}

/// Locates the first dot: no dot lies before `k`, and `k` (when inside the
/// sequence) holds one.
proof fn lemma_first_dot_from_at(s: Seq<char>, p: int, k: int)
    requires
        0 <= p <= k <= s.len(),
        forall|j: int| p <= j < k ==> s[j] != '.',
        k < s.len() ==> s[k] == '.',
    ensures
        first_dot_from(s, p) == if k < s.len() {
            k
        } else {
            s.len() as int
        },
    decreases k - p,
{
    if p < k {
        lemma_first_dot_from_at(s, p + 1, k);
    }
}

/// Public face of the dot-location argument, at position zero.
pub proof fn lemma_first_dot_at(s: Seq<char>, k: int)
    requires
        0 <= k <= s.len(),
        forall|j: int| 0 <= j < k ==> s[j] != '.',
        k < s.len() ==> s[k] == '.',
    ensures
        first_dot(s) == if k < s.len() {
            k
        } else {
            s.len() as int
        },
{
    lemma_first_dot_from_at(s, 0, k);
}

/// Caps a value one past the representable maximum, the saturation the
/// integer-part accumulator uses.
pub open spec fn cap_excess(v: int) -> int {
    if v > FP_MAX as int {
        FP_MAX as int + 1
    } else {
        v
    }
}

/// Small powers of ten on machine integers.
fn pow10_small(n: u32) -> (r: u32)
    requires
        n <= 6,
    ensures
        r as int == pow10(n as nat),
{
    proof {
        reveal_with_fuel(pow10, 8);
    }
    if n == 0 {
        1
    } else if n == 1 {
        10
    } else if n == 2 {
        100
    } else if n == 3 {
        1000
    } else if n == 4 {
        10000
    } else if n == 5 {
        100000
    } else {
        1000000
    }
}

/// Whether the character at a position is a decimal digit.
fn digit_at(s: &str, i: usize) -> (r: bool)
    requires
        i < s@.len(),
    ensures
        r == is_digit(s@[i as int]),
{
    let c: char = s.get_char(i);
    let u: u32 = c as u32;
    proof {
        assert(u as int == c as int);
    }
    48 <= u && u <= 57
}

/// The numeric value of the decimal digit at a position.
fn digit_value_at(s: &str, i: usize) -> (r: u32)
    requires
        i < s@.len(),
        is_digit(s@[i as int]),
    ensures
        r as int == digit_val(s@[i as int]),
        r <= 9,
{
    let c: char = s.get_char(i);
    let u: u32 = c as u32;
    proof {
        assert(u as int == c as int);
    }
    u - 48
}

/// Parses a trimmed decimal string into a fixed-point reading.
///
/// Returns the value [`spec_parse_micro`] assigns to the characters:
/// anything that is not an optionally signed decimal number representable in
/// the fixed-point range — including `inf`, `nan` and exponent forms — is
/// absent, so a malformed or non-finite reading is indistinguishable from a
/// missing one, as the derivations require.
#[verifier::loop_isolation(false)]
#[verifier::rlimit(60)]
pub fn parse_micro(s: &str) -> (r: Option<i64>)
    ensures
        opt64(r) == spec_parse_micro(s@),
{
    let len: usize = s.unicode_len();
    if len == 0 {
        return None;
    }
    let first: char = s.get_char(0);
    let neg = first == '-';
    let signed = neg || first == '+';
    let start: usize = if signed {
        1
    } else {
        0
    };
    let ghost body: Seq<char> = if signed {
        s@.drop_first()
    } else {
        s@
    };
    proof {
        assert(body =~= s@.skip(start as int));
    }
    // Integer part: scan digits, saturating one past the representable
    // maximum so overflow and exactness can be told apart afterwards.
    let mut i: usize = start;
    let mut acc: u128 = 0;
    while i < len && digit_at(s, i)
        invariant
            start <= i <= len,
            all_digits(s@.subrange(start as int, i as int)),
            0 <= digits_val(s@.subrange(start as int, i as int)),
            acc == cap_excess(digits_val(s@.subrange(start as int, i as int))),
        decreases len - i,
    {
        let d: u128 = digit_value_at(s, i) as u128;
        proof {
            let pre = s@.subrange(start as int, i as int);
            let post = s@.subrange(start as int, i as int + 1);
            assert(post.drop_last() =~= pre);
            assert(post.last() == s@[i as int]);
            assert(digits_val(post) == digits_val(pre) * 10 + digit_val(s@[i as int]));
        }
        acc = acc * 10 + d;
        if acc > FP_MAX as u128 {
            acc = FP_MAX as u128 + 1;
        }
        i = i + 1;
    }
    let ghost k: int = i as int - start as int;
    if i == start {
        // Empty integer part: the grammar demands at least one digit
        // before any dot.
        proof {
            if start < len {
                if s@[start as int] == '.' {
                    lemma_first_dot_at(body, 0);
                } else {
                    let fd = first_dot(body);
                    lemma_first_dot_witness(body, 0);
                    assert(body[0] == s@[start as int]);
                    if fd >= 1 && all_digits(body.take(fd)) {
                        assert(is_digit(body.take(fd)[0]));
                        assert(body.take(fd)[0] == body[0]);
                    }
                }
            } else {
                lemma_first_dot_at(body, 0);
            }
        }
        return None;
    }
    proof {
        assert(forall|j: int| 0 <= j < k ==> body[j] == #[trigger] s@[start as int + j]);
        assert(forall|j: int|
            0 <= j < k ==> is_digit(#[trigger] s@.subrange(start as int, i as int)[j]));
        assert(forall|j: int| 0 <= j < k ==> is_digit(#[trigger] body[j]) && body[j] != '.');
        assert(body.take(k) =~= s@.subrange(start as int, i as int));
    }
    let mut frac_acc: u32 = 0;
    let mut fcount: u32 = 0;
    let ghost fs: int = i as int + 1;
    if i < len {
        let fstart: usize = i + 1;
        let c: char = s.get_char(i);
        if c != '.' {
            // Neither a digit nor a dot follows the integer part.
            proof {
                let fd = first_dot(body);
                lemma_first_dot_witness(body, 0);
                assert(body[k] == s@[i as int]);
                assert(!is_digit(body[k]) && body[k] != '.');
                if fd >= 1 && all_digits(body.take(fd)) {
                    if fd > k {
                        assert(is_digit(body.take(fd)[k]));
                        assert(body.take(fd)[k] == body[k]);
                    } else {
                        // The witness says a dot stands at `fd <= k`, yet
                        // every position up to `k` holds a digit or the
                        // non-dot just read.
                        assert(fd < body.len());
                        assert(body[fd] == '.');
                    }
                }
            }
            return None;
        }
        proof {
            assert(body[k] == '.');
            lemma_first_dot_at(body, k);
        }
        // Fraction: every remaining character must be a digit; the first
        // six carry value, the rest only have to be well-formed.
        let mut j: usize = fstart;
        while j < len
            invariant
                fstart <= j <= len,
                all_digits(s@.subrange(fstart as int, j as int)),
                fcount == if j - fstart <= 6 {
                    (j - fstart) as int
                } else {
                    6int
                },
                frac_acc == digits_val(s@.subrange(fstart as int, fstart as int + fcount as int)),
            decreases len - j,
        {
            if !digit_at(s, j) {
                // A malformed fraction invalidates the whole reading.
                proof {
                    let f = frac_part(body);
                    assert(f =~= body.skip(k + 1));
                    assert(f[j as int - fstart as int] == s@[j as int]);
                    assert(!is_digit(f[j as int - fstart as int]));
                }
                return None;
            }
            if fcount < 6 {
                let d2: u32 = digit_value_at(s, j);
                proof {
                    let pre = s@.subrange(fstart as int, fstart as int + fcount as int);
                    let post = s@.subrange(fstart as int, fstart as int + fcount as int + 1);
                    assert(fstart as int + fcount as int == j as int);
                    assert(post.drop_last() =~= pre);
                    assert(post.last() == s@[j as int]);
                    assert(all_digits(pre));
                    lemma_digits_val_bounds(pre);
                    lemma_pow10_le(fcount as nat, 5);
                    reveal_with_fuel(pow10, 8);
                    assert(pow10(5) == 100000);
                }
                frac_acc = frac_acc * 10 + d2;
                fcount = fcount + 1;
            }
            proof {
                let pre = s@.subrange(fstart as int, j as int);
                let post = s@.subrange(fstart as int, j as int + 1);
                assert(post.drop_last() =~= pre);
                assert(post.last() == s@[j as int]);
            }
            j = j + 1;
        }
    } else {
        proof {
            lemma_first_dot_at(body, k);
        }
    }
    // Assemble the fixed-point value.
    let ghost f: Seq<char> = frac_part(body);
    let pad: u32 = 6 - fcount;
    let pw: u32 = pow10_small(pad);
    proof {
        reveal_with_fuel(pow10, 8);
        if k < body.len() {
            assert(f =~= s@.subrange(fs, len as int));
            assert(all_digits(f));
            lemma_frac_scaled_bounds(f);
            let sub = s@.subrange(fs, fs + fcount as int);
            assert(all_digits(sub)) by {
                assert(forall|m: int|
                    0 <= m < sub.len() ==> sub[m] == #[trigger] f[m] && is_digit(f[m]));
            };
            lemma_digits_val_bounds(sub);
            lemma_pow10_add(fcount as nat, pad as nat);
            assert(frac_acc * pw <= (pow10(fcount as nat) - 1) * pow10(pad as nat) && 0 <= frac_acc
                * pw) by (nonlinear_arith)
                requires
                    0 <= frac_acc < pow10(fcount as nat),
                    pw == pow10(pad as nat),
                    pw >= 1,
            ;
            assert((pow10(fcount as nat) - 1) * pow10(pad as nat) == pow10(fcount as nat) * pow10(
                pad as nat,
            ) - pow10(pad as nat)) by (nonlinear_arith);
            if f.len() < 6 {
                assert(f =~= s@.subrange(fs, fs + fcount as int));
                assert(frac_scaled(f) == digits_val(f) * pow10(pad as nat));
                assert(frac_acc == digits_val(f));
                assert(frac_acc * pw == digits_val(f) * pow10(pad as nat)) by (nonlinear_arith)
                    requires
                        frac_acc == digits_val(f),
                        pw == pow10(pad as nat),
                ;
            } else {
                assert(f.take(6) =~= s@.subrange(fs, fs + 6));
                assert(pad == 0);
                assert(pw == 1);
                assert(frac_acc == frac_scaled(f));
            }
            assert(frac_acc * pw == frac_scaled(f));
        } else {
            assert(f =~= Seq::<char>::empty());
            assert(frac_scaled(f) == 0);
            assert(frac_acc == 0);
            assert(frac_acc * pw == frac_scaled(f));
        }
        assert(frac_acc * pw == frac_scaled(f));
        assert(0 <= frac_acc * pw < 1_000_000) by {
            if k < body.len() {
                lemma_frac_scaled_bounds(f);
            }
        };
    }
    let frac_total: u32 = frac_acc * pw;
    proof {
        assert(frac_total == frac_scaled(f));
    }
    let dv_capped: u128 = acc;
    if dv_capped > FP_MAX as u128 {
        // The integer part alone exceeds the representable range.
        proof {
            let dv = digits_val(body.take(k));
            assert(dv > FP_MAX as int);
            assert(dv * SCALE as int >= dv * 1) by (nonlinear_arith)
                requires
                    dv >= 0,
            ;
        }
        return None;
    }
    let total: u128 = dv_capped * (SCALE as u128) + frac_total as u128;
    proof {
        let dv = digits_val(body.take(k));
        assert(dv == dv_capped as int);
        assert(total == dv * SCALE as int + frac_scaled(f));
    }
    if total > FP_MAX as u128 {
        return None;
    }
    let v: i64 = total as i64;
    if neg {
        Some(-v)
    } else {
        Some(v)
    }
}

/// The first-dot index from any position lies in the sequence and points
/// at a dot, or it is the length and there is none.
proof fn lemma_first_dot_witness(s: Seq<char>, p: int)
    requires
        0 <= p <= s.len(),
    ensures
        p <= first_dot_from(s, p) <= s.len(),
        first_dot_from(s, p) == s.len() || s[first_dot_from(s, p)] == '.',
    decreases s.len() - p,
{
    if p < s.len() && s[p] != '.' {
        lemma_first_dot_witness(s, p + 1);
    }
}

/// One raw reading source beneath the battery or AC sysfs node.
#[derive(Clone, Copy, PartialEq, Eq, Structural, Debug)]
pub enum TelemetrySource {
    HwStatus,
    VoltageMinDesign,
    VoltageNow,
    ChargeFull,
    ChargeNow,
    RateNow,
    Online,
}

/// Which sources have already produced a read diagnostic.
///
/// A missing or unreadable source is reported exactly once for the life of
/// the process; this log carries that memory, owned by whoever drives the
/// ticks rather than hidden in global state.
pub struct WarnLog {
    hw_status: bool,
    voltage_min_design: bool,
    voltage_now: bool,
    charge_full: bool,
    charge_now: bool,
    rate_now: bool,
    online: bool,
}

impl WarnLog {
    /// Whether a diagnostic for this source has been issued.
    pub closed spec fn spec_warned(&self, src: TelemetrySource) -> bool {
        match src {
            TelemetrySource::HwStatus => self.hw_status,
            TelemetrySource::VoltageMinDesign => self.voltage_min_design,
            TelemetrySource::VoltageNow => self.voltage_now,
            TelemetrySource::ChargeFull => self.charge_full,
            TelemetrySource::ChargeNow => self.charge_now,
            TelemetrySource::RateNow => self.rate_now,
            TelemetrySource::Online => self.online,
        }
    }

    /// A fresh log: nothing has been reported yet.
    pub fn new() -> (w: WarnLog)
        ensures
            forall|src: TelemetrySource| !w.spec_warned(src),
    {
        WarnLog {
            hw_status: false,
            voltage_min_design: false,
            voltage_now: false,
            charge_full: false,
            charge_now: false,
            rate_now: false,
            online: false,
        }
    }

    /// Records a failed read of `src` and says whether a diagnostic is owed:
    /// true exactly on the first failure of this source.
    pub fn note_failure(&mut self, src: TelemetrySource) -> (warn: bool)
        ensures
            warn == !old(self).spec_warned(src),
            final(self).spec_warned(src),
            forall|other: TelemetrySource|
                other != src ==> final(self).spec_warned(other) == old(self).spec_warned(other),
    {
        let warn: bool;
        match src {
            TelemetrySource::HwStatus => {
                warn = !self.hw_status;
                self.hw_status = true;
            },
            TelemetrySource::VoltageMinDesign => {
                warn = !self.voltage_min_design;
                self.voltage_min_design = true;
            },
            TelemetrySource::VoltageNow => {
                warn = !self.voltage_now;
                self.voltage_now = true;
            },
            TelemetrySource::ChargeFull => {
                warn = !self.charge_full;
                self.charge_full = true;
            },
            TelemetrySource::ChargeNow => {
                warn = !self.charge_now;
                self.charge_now = true;
            },
            TelemetrySource::RateNow => {
                warn = !self.rate_now;
                self.rate_now = true;
            },
            TelemetrySource::Online => {
                warn = !self.online;
                self.online = true;
            },
        }
        warn
    }
}

/// Which of the two sysfs naming families the device uses: some expose
/// `charge_full`/`charge_now` and `current_now`, others `energy_full`/
/// `energy_now` and `power_now`. The choice is made once at startup from
/// which files exist.
pub struct NamingScheme {
    pub charge_named: bool,
    pub current_named: bool,
}

impl NamingScheme {
    /// Determines the naming family from the presence of the primary files.
    pub fn detect(charge_files_present: bool, current_file_present: bool) -> (s: NamingScheme)
        ensures
            s.charge_named == charge_files_present,
            s.current_named == current_file_present,
    {
        NamingScheme { charge_named: charge_files_present, current_named: current_file_present }
    }

    /// File name holding the design capacity.
    pub fn charge_full_file(&self) -> (r: &'static str)
        ensures
            self.charge_named ==> r@ == "charge_full"@,
            !self.charge_named ==> r@ == "energy_full"@,
    {
        if self.charge_named {
            "charge_full"
        } else {
            "energy_full"
        }
    }

    /// File name holding the current charge level.
    pub fn charge_now_file(&self) -> (r: &'static str)
        ensures
            self.charge_named ==> r@ == "charge_now"@,
            !self.charge_named ==> r@ == "energy_now"@,
    {
        if self.charge_named {
            "charge_now"
        } else {
            "energy_now"
        }
    }

    /// File name holding the instantaneous rate, and whether it is a
    /// current (to be multiplied with the voltage) or already a power.
    pub fn rate_file(&self) -> (r: &'static str)
        ensures
            self.current_named ==> r@ == "current_now"@,
            !self.current_named ==> r@ == "power_now"@,
    {
        if self.current_named {
            "current_now"
        } else {
            "power_now"
        }
    }
}

/// One tick's raw telemetry, every field independently optional. Numeric
/// readings are fixed-point micro-units as [`parse_micro`] produces them;
/// the two strings are passed through as read.
pub struct RawTelemetry {
    pub charge_full: Option<i64>,
    pub charge_now: Option<i64>,
    pub current_now: Option<i64>,
    pub power_file: Option<i64>,
    pub voltage_now: Option<i64>,
    pub voltage_min_design: Option<i64>,
    pub hw_status: Option<String>,
    pub online: Option<String>,
    pub pd_contract_status: Option<u8>,
    pub pd_voltage: Option<i64>,
    pub pd_current: Option<i64>,
}

impl RawTelemetry {
    /// Every present numeric reading lies in the fixed-point range.
    pub open spec fn wf(&self) -> bool {
        &&& crate::fixed::opt_fp_ok(self.charge_full)
        &&& crate::fixed::opt_fp_ok(self.charge_now)
        &&& crate::fixed::opt_fp_ok(self.current_now)
        &&& crate::fixed::opt_fp_ok(self.power_file)
        &&& crate::fixed::opt_fp_ok(self.voltage_now)
        &&& crate::fixed::opt_fp_ok(self.voltage_min_design)
        &&& crate::fixed::opt_fp_ok(self.pd_voltage)
        &&& crate::fixed::opt_fp_ok(self.pd_current)
    }

    /// A tick with nothing read at all.
    pub fn empty() -> (t: RawTelemetry)
        ensures
            t.wf(),
            t.charge_full is None,
            t.charge_now is None,
            t.current_now is None,
            t.power_file is None,
            t.voltage_now is None,
            t.voltage_min_design is None,
            t.hw_status is None,
            t.online is None,
            t.pd_contract_status is None,
            t.pd_voltage is None,
            t.pd_current is None,
    {
        RawTelemetry {
            charge_full: None,
            charge_now: None,
            current_now: None,
            power_file: None,
            voltage_now: None,
            voltage_min_design: None,
            hw_status: None,
            online: None,
            pd_contract_status: None,
            pd_voltage: None,
            pd_current: None,
        }
    }
}

} // verus!
