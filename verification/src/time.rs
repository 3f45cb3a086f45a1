//! Wall-clock instants for fault signatures: a civil UTC timestamp held as
//! plain fields, its RFC 3339 text form, and the decimal-digit machinery that
//! makes formatting and parsing provably inverse to each other.
use vstd::prelude::*;
use vstd::arithmetic::div_mod::lemma_fundamental_div_mod;
use vstd::arithmetic::div_mod::lemma_fundamental_div_mod_converse;

verus! {

// ---------------------------------------------------------------------------
// Decimal digits of fixed width
// ---------------------------------------------------------------------------

pub open spec fn digit_char(d: int) -> char {
    ((48 + d) as u32) as char
}

pub open spec fn is_digit_char(c: char) -> bool {
    48 <= c as u32 <= 57
}

pub open spec fn digit_val(c: char) -> int {
    c as u32 - 48
}

/// The last `w` decimal digits of `n`, most significant first.
pub open spec fn dec_digits(n: int, w: nat) -> Seq<char>
    decreases w,
{
    if w == 0 {
        Seq::empty()
    } else {
        dec_digits(n / 10, (w - 1) as nat).push(digit_char(n % 10))
    }
}

/// The number written by a digit sequence, most significant first.
pub open spec fn parse_dec(s: Seq<char>) -> int
    decreases s.len(),
{
    if s.len() == 0 {
        0
    } else {
        parse_dec(s.drop_last()) * 10 + digit_val(s.last())
    }
}

pub open spec fn all_digits(s: Seq<char>) -> bool {
    forall|i: int| 0 <= i < s.len() ==> is_digit_char(#[trigger] s[i])
}

pub open spec fn pow10(w: nat) -> int
    decreases w,
{
    if w == 0 {
        1
    } else {
        10 * pow10((w - 1) as nat)
    }
}

pub proof fn lemma_pow10_le(a: nat, b: nat)
    requires
        a <= b,
    ensures
        1 <= pow10(a) <= pow10(b),
    decreases b,
{
    if b == 0 {
    } else if a == b {
        lemma_pow10_le((b - 1) as nat, (b - 1) as nat);
    } else {
        lemma_pow10_le(a, (b - 1) as nat);
    }
}

/// Writing `n` with width `w` yields `w` digit characters whose value reads
/// back as `n` modulo `10^w`.
pub proof fn lemma_dec_digits(n: int, w: nat)
    requires
        0 <= n,
    ensures
        dec_digits(n, w).len() == w,
        all_digits(dec_digits(n, w)),
        parse_dec(dec_digits(n, w)) == n % pow10(w),
        pow10(w) >= 1,
    decreases w,
{
    if w == 0 {
        assert(n % 1 == 0) by {
            lemma_fundamental_div_mod(n, 1);
        }
    } else {
        lemma_dec_digits(n / 10, (w - 1) as nat);
        let s = dec_digits(n, w);
        let p = pow10((w - 1) as nat);
        assert(s.drop_last() =~= dec_digits(n / 10, (w - 1) as nat));
        let d = n % 10;
        assert(0 <= d < 10);
        assert(digit_val(digit_char(d)) == d);
        let q1 = n / 10;
        let r2 = q1 % p;
        let q2 = q1 / p;
        lemma_fundamental_div_mod(n, 10);
        lemma_fundamental_div_mod(q1, p);
        assert(n == (10 * p) * q2 + (10 * r2 + d)) by (nonlinear_arith)
            requires
                n == 10 * (n / 10) + d,
                q1 == n / 10,
                q1 == p * q2 + r2,
        ;
        assert(0 <= 10 * r2 + d < 10 * p) by (nonlinear_arith)
            requires
                0 <= r2 < p,
                0 <= d < 10,
        ;
        lemma_fundamental_div_mod_converse(n, 10 * p, q2, 10 * r2 + d);
        assert(parse_dec(s) == r2 * 10 + d);
    }
}

/// A digit sequence of width `w` is exactly the written form of its value.
pub proof fn lemma_parse_dec_inverse(s: Seq<char>)
    requires
        all_digits(s),
    ensures
        0 <= parse_dec(s) < pow10(s.len()),
        dec_digits(parse_dec(s), s.len()) == s,
    decreases s.len(),
{
    if s.len() == 0 {
        assert(dec_digits(parse_dec(s), 0) =~= s);
    } else {
        let st = s.drop_last();
        assert(all_digits(st));
        lemma_parse_dec_inverse(st);
        let a = parse_dec(st);
        let c = s.last();
        let b = digit_val(c);
        assert(is_digit_char(c));
        assert(0 <= b < 10);
        let n = a * 10 + b;
        assert(n / 10 == a && n % 10 == b) by {
            lemma_fundamental_div_mod_converse(n, 10, a, b);
        }
        assert(digit_char(b) == c) by {
            assert(c as u32 == 48 + b);
            vstd::utf8::char_u32_cast(c, c as u32);
        }
        assert(dec_digits(n, s.len()) =~= s);
        let p = pow10((s.len() - 1) as nat);
        assert(a * 10 + b < 10 * p) by (nonlinear_arith)
            requires
                0 <= a < p,
                0 <= b < 10,
        ;
    }
}

/// Append the last `w` decimal digits of `n` to `out`, most significant first.
pub fn push_dec(out: &mut Vec<char>, n: u32, w: u8)
    ensures
        final(out)@ == old(out)@ + dec_digits(n as int, w as nat),
    decreases w,
{
    if w == 0 {
        proof {
            assert(out@ =~= old(out)@ + dec_digits(n as int, 0));
        }
        return;
    }
    push_dec(out, n / 10, w - 1);
    let d: u8 = (n % 10) as u8;
    out.push((48 + d) as char);
    proof {
        assert((n / 10) as int == n as int / 10);
        assert((n % 10) as int == n as int % 10);
        assert(((48 + d) as char) == digit_char(n as int % 10));
        assert(out@ =~= old(out)@ + dec_digits(n as int, w as nat));
    }
}

/// Read `w` digit characters of `v` starting at `i` as a number.
pub fn read_dec(v: &Vec<char>, i: usize, w: usize) -> (r: Option<u32>)
    requires
        i + w <= v.len(),
        w <= 9,
    ensures
        match r {
            Some(n) => all_digits(v@.subrange(i as int, i + w)) && n == parse_dec(
                v@.subrange(i as int, i + w),
            ),
            None => !all_digits(v@.subrange(i as int, i + w)),
        },
{
    let mut j: usize = 0;
    let mut val: u32 = 0;
    proof {
        reveal_with_fuel(pow10, 10);
    }
    while j < w
        invariant
            i + w <= v.len(),
            w <= 9,
            j <= w,
            all_digits(v@.subrange(i as int, i + j)),
            val == parse_dec(v@.subrange(i as int, i + j)),
            0 <= val < pow10(j as nat),
            pow10(9nat) == 1000000000,
        decreases w - j,
    {
        let c = v[i + j];
        let code: u32 = c as u32;
        if code < 48 || code > 57 {
            proof {
                let s = v@.subrange(i as int, i + w);
                assert(s[j as int] == c);
                assert(!is_digit_char(c));
                assert(!all_digits(s));
            }
            return None;
        }
        proof {
            lemma_pow10_le(j as nat, 8nat);
            assert(pow10(8nat) == 100000000);
        }
        let d: u32 = code - 48;
        let ghost sj = v@.subrange(i as int, i + j);
        val = val * 10 + d;
        j = j + 1;
        proof {
            let sj1 = v@.subrange(i as int, i + j);
            assert(sj1.drop_last() =~= sj);
            assert(sj1.last() == c);
            assert(is_digit_char(c));
            assert forall|k: int| 0 <= k < sj1.len() implies is_digit_char(#[trigger] sj1[k]) by {
                if k < sj.len() {
                    assert(sj1[k] == sj[k]);
                    assert(is_digit_char(sj[k]));
                } else {
                    assert(sj1[k] == c);
                }
            }
            assert(all_digits(sj1));
            assert(val == parse_dec(sj1));
            lemma_parse_dec_inverse(sj1);
        }
    }
    proof {
        assert(v@.subrange(i as int, i + j) =~= v@.subrange(i as int, i + w));
    }
    Some(val)
}

// ---------------------------------------------------------------------------
// Civil UTC timestamps
// ---------------------------------------------------------------------------

/// A UTC instant held as civil fields; assigned when a fault signature is
/// built and never mutated afterward.
#[derive(Clone, Copy, PartialEq, Eq, Structural, Debug)]
pub struct Timestamp {
    pub year: u32,
    pub month: u32,
    pub day: u32,
    pub hour: u32,
    pub minute: u32,
    pub second: u32,
    pub nanos: u32,
}

pub open spec fn is_leap_year(y: int) -> bool {
    y % 4 == 0 && (y % 100 != 0 || y % 400 == 0)
}

pub open spec fn days_in_month(y: int, m: int) -> int {
    if m == 2 {
        if is_leap_year(y) {
            29
        } else {
            28
        }
    } else if m == 4 || m == 6 || m == 9 || m == 11 {
        30
    } else {
        31
    }
}

impl Timestamp {
    /// A calendar-valid instant in the era the remote service understands.
    pub open spec fn wf(self) -> bool {
        &&& 1970 <= self.year <= 9999
        &&& 1 <= self.month <= 12
        &&& 1 <= self.day <= days_in_month(self.year as int, self.month as int)
        &&& self.hour <= 23
        &&& self.minute <= 59
        &&& self.second <= 59
        &&& self.nanos <= 999999999
    }

    /// Build an instant from its fields, rejecting anything that is not a
    /// valid calendar date and time of day.
    pub fn new(year: u32, month: u32, day: u32, hour: u32, minute: u32, second: u32, nanos: u32)
        -> (r: Option<Timestamp>)
        ensures
            match r {
                Some(t) => t.wf() && t == (Timestamp { year, month, day, hour, minute, second, nanos }),
                None => !(Timestamp { year, month, day, hour, minute, second, nanos }).wf(),
            },
    {
        let t = Timestamp { year, month, day, hour, minute, second, nanos };
        if 1970 <= year && year <= 9999 && 1 <= month && month <= 12 && 1 <= day && day
            <= days_in_month_exec(year, month) && hour <= 23 && minute <= 59 && second <= 59
            && nanos <= 999999999 {
            Some(t)
        } else {
            None
        }
    }
}

pub fn days_in_month_exec(y: u32, m: u32) -> (r: u32)
    ensures
        r == days_in_month(y as int, m as int),
{
    if m == 2 {
        if y % 4 == 0 && (y % 100 != 0 || y % 400 == 0) {
            29
        } else {
            28
        }
    } else if m == 4 || m == 6 || m == 9 || m == 11 {
        30
    } else {
        31
    }
}

/// RFC 3339 text of an instant: `YYYY-MM-DDThh:mm:ss.nnnnnnnnnZ`.
pub open spec fn spec_rfc3339(t: Timestamp) -> Seq<char> {
    dec_digits(t.year as int, 4) + seq!['-'] + dec_digits(t.month as int, 2) + seq!['-']
        + dec_digits(t.day as int, 2) + seq!['T'] + dec_digits(t.hour as int, 2) + seq![':']
        + dec_digits(t.minute as int, 2) + seq![':'] + dec_digits(t.second as int, 2) + seq!['.']
        + dec_digits(t.nanos as int, 9) + seq!['Z']
}

pub fn push_rfc3339(out: &mut Vec<char>, t: &Timestamp)
    ensures
        final(out)@ == old(out)@ + spec_rfc3339(*t),
{
    push_dec(out, t.year, 4);
    out.push('-');
    push_dec(out, t.month, 2);
    out.push('-');
    push_dec(out, t.day, 2);
    out.push('T');
    push_dec(out, t.hour, 2);
    out.push(':');
    push_dec(out, t.minute, 2);
    out.push(':');
    push_dec(out, t.second, 2);
    out.push('.');
    push_dec(out, t.nanos, 9);
    out.push('Z');
    proof {
        assert(out@ =~= old(out)@ + spec_rfc3339(*t));
    }
}

} // verus!
