//! The JSON wire encoding the remote service expects. The encoder and the
//! decoder are written here as ordinary verified functions, and decoding is
//! proved to invert encoding, so a signature survives the wire losslessly.
use vstd::prelude::*;
use crate::time::{
    Timestamp, digit_char, is_digit_char, digit_val, dec_digits, parse_dec, all_digits, pow10,
    spec_rfc3339, push_rfc3339, read_dec, lemma_dec_digits, lemma_parse_dec_inverse,
};
use crate::models::{
    CaptureRequest, CaptureModel, FaultSignature, FaultModel, RegisterRequest, strs_view,
};
use crate::chars::{push_str_chars, chars_to_string};
use vstd::arithmetic::div_mod::lemma_fundamental_div_mod;
use vstd::arithmetic::div_mod::lemma_fundamental_div_mod_converse;

verus! {

// ---------------------------------------------------------------------------
// String escaping
// ---------------------------------------------------------------------------

pub open spec fn hex_char(d: int) -> char {
    if d < 10 {
        digit_char(d)
    } else {
        ((87 + d) as u32) as char
    }
}

pub open spec fn is_hex_lower(c: char) -> bool {
    is_digit_char(c) || 97 <= c as u32 <= 102
}

pub open spec fn hex_val(c: char) -> int {
    if is_digit_char(c) {
        digit_val(c)
    } else {
        c as u32 - 87
    }
}

pub proof fn lemma_hex_roundtrip(d: int)
    requires
        0 <= d < 16,
    ensures
        is_hex_lower(hex_char(d)),
        hex_val(hex_char(d)) == d,
{
}

/// A character that passes through the encoder unchanged.
pub open spec fn is_plain_char(c: char) -> bool {
    c != '"' && c != '\\' && c as u32 >= 32
}

/// How one character is written inside a JSON string literal.
pub open spec fn esc_char(c: char) -> Seq<char> {
    if c == '"' {
        seq!['\\', '"']
    } else if c == '\\' {
        seq!['\\', '\\']
    } else if (c as u32) < 32 {
        seq!['\\', 'u', '0', '0', hex_char(c as u32 as int / 16), hex_char(c as u32 as int % 16)]
    } else {
        seq![c]
    }
}

/// The body of the JSON string literal that writes `s`.
pub open spec fn spec_escape(s: Seq<char>) -> Seq<char>
    decreases s.len(),
{
    if s.len() == 0 {
        Seq::empty()
    } else {
        esc_char(s[0]) + spec_escape(s.drop_first())
    }
}

pub proof fn lemma_escape_append(a: Seq<char>, b: Seq<char>)
    ensures
        spec_escape(a + b) == spec_escape(a) + spec_escape(b),
    decreases a.len(),
{
    if a.len() == 0 {
        assert(a + b =~= b);
        assert(spec_escape(a) + spec_escape(b) =~= spec_escape(b));
    } else {
        lemma_escape_append(a.drop_first(), b);
        assert((a + b).drop_first() =~= a.drop_first() + b);
        assert((a + b)[0] == a[0]);
        assert(spec_escape(a + b) == esc_char(a[0]) + (spec_escape(a.drop_first()) + spec_escape(
            b,
        )));
        assert(esc_char(a[0]) + (spec_escape(a.drop_first()) + spec_escape(b)) =~= (esc_char(a[0])
            + spec_escape(a.drop_first())) + spec_escape(b));
    }
}

pub proof fn lemma_escape_singleton(c: char)
    ensures
        spec_escape(seq![c]) == esc_char(c),
{
    assert(seq![c].drop_first() =~= Seq::<char>::empty());
    assert(spec_escape(Seq::<char>::empty()) == Seq::<char>::empty());
    assert(spec_escape(seq![c]) == esc_char(c) + spec_escape(seq![c].drop_first()));
    assert(esc_char(c) + Seq::<char>::empty() =~= esc_char(c));
}

/// Escaping a text of plain characters leaves it unchanged.
pub proof fn lemma_escape_plain(s: Seq<char>)
    requires
        forall|i: int| 0 <= i < s.len() ==> is_plain_char(#[trigger] s[i]),
    ensures
        spec_escape(s) == s,
    decreases s.len(),
{
    if s.len() == 0 {
        assert(spec_escape(s) =~= s);
    } else {
        lemma_escape_plain(s.drop_first());
        assert(esc_char(s[0]) =~= seq![s[0]]);
        assert(seq![s[0]] + s.drop_first() =~= s);
    }
}

fn push_hex(out: &mut Vec<char>, d: u32)
    requires
        d < 16,
    ensures
        final(out)@ == old(out)@ + seq![hex_char(d as int)],
{
    if d < 10 {
        out.push((48 + d as u8) as char);
    } else {
        out.push((87 + d as u8) as char);
    }
    proof {
        assert(out@ =~= old(out)@ + seq![hex_char(d as int)]);
    }
}

/// Append the escaped form of `s` to `out`.
pub fn push_escaped(out: &mut Vec<char>, s: &str)
    ensures
        final(out)@ == old(out)@ + spec_escape(s@),
{
    let n: usize = s.unicode_len();
    let mut i: usize = 0;
    while i < n
        invariant
            n == s@.len(),
            i <= n,
            out@ == old(out)@ + spec_escape(s@.subrange(0, i as int)),
        decreases n - i,
    {
        let c = s.get_char(i);
        let ghost pre = s@.subrange(0, i as int);
        if c == '"' {
            out.push('\\');
            out.push('"');
        } else if c == '\\' {
            out.push('\\');
            out.push('\\');
        } else {
            let code: u32 = c as u32;
            if code < 32 {
                out.push('\\');
                out.push('u');
                out.push('0');
                out.push('0');
                push_hex(out, code / 16);
                push_hex(out, code % 16);
            } else {
                out.push(c);
            }
        }
        i = i + 1;
        proof {
            lemma_escape_append(pre, seq![c]);
            lemma_escape_singleton(c);
            assert(s@.subrange(0, i as int) =~= pre + seq![c]);
            assert(out@ =~= old(out)@ + spec_escape(s@.subrange(0, i as int)));
        }
    }
    proof {
        assert(s@.subrange(0, n as int) =~= s@);
    }
}

// ---------------------------------------------------------------------------
// Scanning a string literal body back out
// ---------------------------------------------------------------------------

pub open spec fn char_of_code(n: int) -> char {
    (n as u32) as char
}

/// Read a string literal body from the front of `v` up to its closing quote;
/// yields the decoded text and what follows the quote. Accepts exactly the
/// escapes the encoder writes.
pub open spec fn spec_scan_str(v: Seq<char>) -> Option<(Seq<char>, Seq<char>)>
    decreases v.len(),
{
    if v.len() == 0 {
        None
    } else if v[0] == '"' {
        Some((Seq::empty(), v.drop_first()))
    } else if v[0] == '\\' {
        if v.len() < 2 {
            None
        } else if v[1] == '"' || v[1] == '\\' {
            match spec_scan_str(v.skip(2)) {
                Option::None => None,
                Option::Some((c, r)) => Some((seq![v[1]] + c, r)),
            }
        } else if v[1] == 'u' {
            if v.len() < 6 {
                None
            } else if v[2] == '0' && v[3] == '0' && is_hex_lower(v[4]) && is_hex_lower(v[5])
                && hex_val(v[4]) * 16 + hex_val(v[5]) < 32 {
                match spec_scan_str(v.skip(6)) {
                    Option::None => None,
                    Option::Some((c, r)) => Some(
                        (seq![char_of_code(hex_val(v[4]) * 16 + hex_val(v[5]))] + c, r),
                    ),
                }
            } else {
                None
            }
        } else {
            None
        }
    } else if is_plain_char(v[0]) {
        match spec_scan_str(v.skip(1)) {
            Option::None => None,
            Option::Some((c, r)) => Some((seq![v[0]] + c, r)),
        }
    } else {
        None
    }
}

/// A successful scan consumes at least one character.
pub proof fn lemma_scan_shrinks(v: Seq<char>)
    ensures
        spec_scan_str(v) matches Some((c, r)) ==> r.len() < v.len(),
    decreases v.len(),
{
    if v.len() == 0 {
    } else if v[0] == '"' {
    } else if v[0] == '\\' {
        if v.len() >= 2 && (v[1] == '"' || v[1] == '\\') {
            lemma_scan_shrinks(v.skip(2));
        } else if v.len() >= 6 && v[1] == 'u' {
            lemma_scan_shrinks(v.skip(6));
        }
    } else {
        lemma_scan_shrinks(v.skip(1));
    }
}

/// Scanning what the encoder wrote, plus the closing quote, recovers the
/// original text exactly and stops at the quote.
pub proof fn lemma_scan_escape(s: Seq<char>, rest: Seq<char>)
    ensures
        spec_scan_str(spec_escape(s) + seq!['"'] + rest) == Some((s, rest)),
    decreases s.len(),
{
    let v = spec_escape(s) + seq!['"'] + rest;
    if s.len() == 0 {
        assert(v =~= seq!['"'] + rest);
        assert(v[0] == '"');
        assert(v.drop_first() =~= rest);
        assert(spec_scan_str(v)->Some_0.0 =~= s);
    } else {
        let c0 = s[0];
        let e = esc_char(c0);
        let tail = spec_escape(s.drop_first()) + seq!['"'] + rest;
        assert(spec_escape(s) == e + spec_escape(s.drop_first()));
        assert(v =~= e + tail);
        lemma_scan_escape(s.drop_first(), rest);
        if c0 == '"' {
            assert(v[0] == '\\' && v[1] == '"');
            assert(v.skip(2) =~= tail);
            assert(seq![v[1]] + s.drop_first() =~= s);
        } else if c0 == '\\' {
            assert(v[0] == '\\' && v[1] == '\\');
            assert(v.skip(2) =~= tail);
            assert(seq![v[1]] + s.drop_first() =~= s);
        } else if ((c0 as u32) < 32) {
            let code = c0 as u32 as int;
            assert(v[0] == '\\' && v[1] == 'u' && v[2] == '0' && v[3] == '0');
            assert(v[4] == hex_char(code / 16) && v[5] == hex_char(code % 16));
            lemma_hex_roundtrip(code / 16);
            lemma_hex_roundtrip(code % 16);
            assert(code == 16 * (code / 16) + code % 16) by {
                lemma_fundamental_div_mod(code, 16);
            }
            assert(hex_val(v[4]) * 16 + hex_val(v[5]) == code);
            assert(char_of_code(code) == c0) by {
                vstd::utf8::char_u32_cast(c0, c0 as u32);
            }
            assert(v.skip(6) =~= tail);
            assert(seq![char_of_code(code)] + s.drop_first() =~= s);
        } else {
            assert(is_plain_char(c0));
            assert(v[0] == c0);
            assert(v.skip(1) =~= tail);
            assert(seq![v[0]] + s.drop_first() =~= s);
        }
    }
}

/// A lowercase hexadecimal digit is the written form of its value.
proof fn lemma_hex_char_inverse(c: char)
    requires
        is_hex_lower(c),
    ensures
        0 <= hex_val(c) < 16,
        hex_char(hex_val(c)) == c,
{
    vstd::utf8::char_u32_cast(c, c as u32);
}

/// What the scanner accepts is exactly the encoder's output: a successful
/// scan means the consumed text was the escaped content plus its quote.
pub proof fn lemma_scan_sound(v: Seq<char>)
    ensures
        spec_scan_str(v) matches Some((c, r)) ==> v == spec_escape(c) + seq!['"'] + r,
    decreases v.len(),
{
    if v.len() == 0 {
    } else if v[0] == '"' {
        if spec_scan_str(v) is Some {
            let (c, r) = spec_scan_str(v)->Some_0;
            assert(spec_escape(c) == Seq::<char>::empty());
            assert(v =~= spec_escape(c) + seq!['"'] + r);
        }
    } else if v[0] == '\\' {
        if v.len() >= 2 && (v[1] == '"' || v[1] == '\\') {
            lemma_scan_sound(v.skip(2));
            if spec_scan_str(v) is Some {
                let (c2, r) = spec_scan_str(v.skip(2))->Some_0;
                let c = seq![v[1]] + c2;
                assert(c[0] == v[1]);
                assert(c.drop_first() =~= c2);
                assert(esc_char(v[1]) =~= seq![v[0], v[1]]);
                assert(spec_escape(c) == esc_char(v[1]) + spec_escape(c2));
                assert(v =~= seq![v[0], v[1]] + v.skip(2));
                assert(v =~= spec_escape(c) + seq!['"'] + r);
            }
        } else if v.len() >= 6 && v[1] == 'u' && v[2] == '0' && v[3] == '0' && is_hex_lower(v[4])
            && is_hex_lower(v[5]) && hex_val(v[4]) * 16 + hex_val(v[5]) < 32 {
            lemma_scan_sound(v.skip(6));
            if spec_scan_str(v) is Some {
                let code = hex_val(v[4]) * 16 + hex_val(v[5]);
                let cc = char_of_code(code);
                let (c2, r) = spec_scan_str(v.skip(6))->Some_0;
                let c = seq![cc] + c2;
                assert(c[0] == cc);
                assert(c.drop_first() =~= c2);
                assert(cc as u32 == code);
                lemma_hex_char_inverse(v[4]);
                lemma_hex_char_inverse(v[5]);
                assert(code / 16 == hex_val(v[4]) && code % 16 == hex_val(v[5])) by {
                    lemma_fundamental_div_mod_converse(code, 16, hex_val(v[4]), hex_val(v[5]));
                }
                assert(esc_char(cc) =~= seq![v[0], v[1], v[2], v[3], v[4], v[5]]);
                assert(spec_escape(c) == esc_char(cc) + spec_escape(c2));
                assert(v =~= seq![v[0], v[1], v[2], v[3], v[4], v[5]] + v.skip(6));
                assert(v =~= spec_escape(c) + seq!['"'] + r);
            }
        }
    } else if is_plain_char(v[0]) {
        lemma_scan_sound(v.skip(1));
        if spec_scan_str(v) is Some {
            let (c2, r) = spec_scan_str(v.skip(1))->Some_0;
            let c = seq![v[0]] + c2;
            assert(c[0] == v[0]);
            assert(c.drop_first() =~= c2);
            assert(esc_char(v[0]) =~= seq![v[0]]);
            assert(spec_escape(c) == esc_char(v[0]) + spec_escape(c2));
            assert(v =~= seq![v[0]] + v.skip(1));
            assert(v =~= spec_escape(c) + seq!['"'] + r);
        }
    }
}

/// Exec scanner: reads a string literal body starting at `i`, appending the
/// decoded text to `out`; returns the index just past the closing quote.
pub fn scan_string(v: &Vec<char>, i: usize, out: &mut Vec<char>) -> (r: Option<usize>)
    requires
        i <= v.len(),
        old(out)@.len() == 0,
    ensures
        match r {
            Some(j) => i < j <= v.len() && spec_scan_str(v@.skip(i as int)) == Some(
                (final(out)@, v@.skip(j as int)),
            ),
            None => spec_scan_str(v@.skip(i as int)) is None,
        },
{
    let ghost v0 = v@.skip(i as int);
    let mut k: usize = i;
    proof {
        if spec_scan_str(v0) is Some {
            let (c2, r2) = spec_scan_str(v0)->Some_0;
            assert(out@ + c2 =~= c2);
        }
    }
    loop
        invariant
            i <= k <= v.len(),
            v0 == v@.skip(i as int),
            match spec_scan_str(v@.skip(k as int)) {
                Option::Some((c2, r2)) => spec_scan_str(v0) == Some::<(Seq<char>, Seq<char>)>(
                    (out@ + c2, r2),
                ),
                Option::None => spec_scan_str(v0) is None,
            },
        decreases v.len() - k,
    {
        let ghost sk = v@.skip(k as int);
        if k == v.len() {
            proof {
                assert(sk.len() == 0);
            }
            return None;
        }
        let c = v[k];
        proof {
            assert(sk[0] == c);
        }
        if c == '"' {
            proof {
                assert(sk.drop_first() =~= v@.skip(k + 1));
                assert(spec_scan_str(sk) == Some::<(Seq<char>, Seq<char>)>(
                    (Seq::empty(), v@.skip(k + 1)),
                ));
                assert(out@ + Seq::<char>::empty() =~= out@);
            }
            return Some(k + 1);
        }
        if c == '\\' {
            if k + 1 == v.len() {
                proof {
                    assert(sk.len() < 2);
                }
                return None;
            }
            let e = v[k + 1];
            proof {
                assert(sk[1] == e);
            }
            if e == '"' || e == '\\' {
                let ghost out_pre = out@;
                out.push(e);
                proof {
                    assert(sk.skip(2) =~= v@.skip(k + 2));
                    if spec_scan_str(v@.skip(k + 2)) is Some {
                        let (c2, r2) = spec_scan_str(v@.skip(k + 2))->Some_0;
                        assert(spec_scan_str(sk) == Some::<(Seq<char>, Seq<char>)>(
                            (seq![e] + c2, r2),
                        ));
                        assert(out@ + c2 =~= out_pre + (seq![e] + c2));
                    } else {
                        assert(spec_scan_str(sk) is None);
                    }
                }
                k = k + 2;
                continue;
            }
            if e == 'u' {
                if v.len() - k < 6 {
                    proof {
                        assert(sk.len() < 6);
                    }
                    return None;
                }
                let z2 = v[k + 2];
                let z3 = v[k + 3];
                let h4 = hex_digit_val(v[k + 4]);
                let h5 = hex_digit_val(v[k + 5]);
                proof {
                    assert(sk[2] == v@[k + 2] && sk[3] == v@[k + 3] && sk[4] == v@[k + 4] && sk[5]
                        == v@[k + 5]);
                }
                if z2 != '0' || z3 != '0' {
                    return None;
                }
                match (h4, h5) {
                    (Some(a), Some(b)) => {
                        let code = a * 16 + b;
                        if code >= 32 {
                            return None;
                        }
                        let ghost out_pre = out@;
                        out.push((code as u8) as char);
                        proof {
                            let cc = char_of_code(code as int);
                            assert(((code as u8) as char) == cc);
                            assert(sk.skip(6) =~= v@.skip(k + 6));
                            if spec_scan_str(v@.skip(k + 6)) is Some {
                                let (c2, r2) = spec_scan_str(v@.skip(k + 6))->Some_0;
                                assert(spec_scan_str(sk) == Some::<(Seq<char>, Seq<char>)>(
                                    (seq![cc] + c2, r2),
                                ));
                                assert(out@ + c2 =~= out_pre + (seq![cc] + c2));
                            } else {
                                assert(spec_scan_str(sk) is None);
                            }
                        }
                        k = k + 6;
                        continue;
                    },
                    _ => {
                        return None;
                    },
                }
            }
            return None;
        }
        let code: u32 = c as u32;
        if code < 32 {
            proof {
                assert(!is_plain_char(c));
            }
            return None;
        }
        let ghost out_pre = out@;
        out.push(c);
        proof {
            assert(is_plain_char(c));
            assert(sk.skip(1) =~= v@.skip(k + 1));
            if spec_scan_str(v@.skip(k + 1)) is Some {
                let (c2, r2) = spec_scan_str(v@.skip(k + 1))->Some_0;
                assert(spec_scan_str(sk) == Some::<(Seq<char>, Seq<char>)>((seq![c] + c2, r2)));
                assert(out@ + c2 =~= out_pre + (seq![c] + c2));
            } else {
                assert(spec_scan_str(sk) is None);
            }
        }
        k = k + 1;
    }
}

/// The value of one lowercase hexadecimal digit.
fn hex_digit_val(c: char) -> (r: Option<u32>)
    ensures
        match r {
            Some(d) => is_hex_lower(c) && d == hex_val(c) && d < 16,
            None => !is_hex_lower(c),
        },
{
    let code: u32 = c as u32;
    if 48 <= code && code <= 57 {
        Some(code - 48)
    } else if 97 <= code && code <= 102 {
        Some(code - 87)
    } else {
        None
    }
}

// ---------------------------------------------------------------------------
// Arrays of strings
// ---------------------------------------------------------------------------

/// The items of a JSON array of strings, commas between, brackets excluded.
pub open spec fn spec_ser_items(items: Seq<Seq<char>>) -> Seq<char>
    decreases items.len(),
{
    if items.len() == 0 {
        Seq::empty()
    } else if items.len() == 1 {
        seq!['"'] + spec_escape(items[0]) + seq!['"']
    } else {
        seq!['"'] + spec_escape(items[0]) + seq!['"'] + seq![','] + spec_ser_items(
            items.drop_first(),
        )
    }
}

/// Read array items from the front of `v` up to and past the closing bracket.
pub open spec fn spec_scan_items(v: Seq<char>) -> Option<(Seq<Seq<char>>, Seq<char>)>
    decreases v.len(),
    via spec_scan_items_dec
{
    if v.len() == 0 {
        None
    } else if v[0] == ']' {
        Some((Seq::empty(), v.drop_first()))
    } else if v[0] == '"' {
        match spec_scan_str(v.drop_first()) {
            Option::None => None,
            Option::Some((s, r)) => {
                if r.len() == 0 {
                    None
                } else if r[0] == ']' {
                    Some((seq![s], r.drop_first()))
                } else if r[0] == ',' && r.len() >= 2 && r[1] == '"' {
                    match spec_scan_items(r.drop_first()) {
                        Option::None => None,
                        Option::Some((ss, rr)) => Some((seq![s] + ss, rr)),
                    }
                } else {
                    None
                }
            },
        }
    } else {
        None
    }
}

#[via_fn]
proof fn spec_scan_items_dec(v: Seq<char>) {
    if v.len() > 0 && v[0] != ']' && v[0] == '"' {
        lemma_scan_shrinks(v.drop_first());
    }
}

/// Scanning what the array encoder wrote, plus the closing bracket, recovers
/// the items exactly.
pub proof fn lemma_scan_items(items: Seq<Seq<char>>, rest: Seq<char>)
    ensures
        spec_scan_items(spec_ser_items(items) + seq![']'] + rest) == Some((items, rest)),
    decreases items.len(),
{
    let v = spec_ser_items(items) + seq![']'] + rest;
    if items.len() == 0 {
        assert(v =~= seq![']'] + rest);
        assert(v[0] == ']');
        assert(v.drop_first() =~= rest);
        assert(spec_scan_items(v)->Some_0.0 =~= items);
    } else if items.len() == 1 {
        let r = seq![']'] + rest;
        assert(v =~= seq!['"'] + (spec_escape(items[0]) + seq!['"'] + r));
        assert(v[0] == '"');
        assert(v.drop_first() =~= spec_escape(items[0]) + seq!['"'] + r);
        lemma_scan_escape(items[0], r);
        assert(r[0] == ']');
        assert(r.drop_first() =~= rest);
        assert(seq![items[0]] =~= items);
    } else {
        let tailitems = items.drop_first();
        lemma_scan_items(tailitems, rest);
        let after = seq![','] + (spec_ser_items(tailitems) + seq![']'] + rest);
        assert(v =~= seq!['"'] + (spec_escape(items[0]) + seq!['"'] + after));
        assert(v[0] == '"');
        assert(v.drop_first() =~= spec_escape(items[0]) + seq!['"'] + after);
        lemma_scan_escape(items[0], after);
        assert(after[0] == ',');
        assert(spec_ser_items(tailitems)[0] == '"');
        assert(after[1] == '"');
        assert(after.drop_first() =~= spec_ser_items(tailitems) + seq![']'] + rest);
        assert(seq![items[0]] + tailitems =~= items);
    }
}

/// What the array reader accepts is exactly the array encoder's output.
pub proof fn lemma_items_sound(v: Seq<char>)
    ensures
        spec_scan_items(v) matches Some((items, r)) ==> v == spec_ser_items(items) + seq![']']
            + r,
        spec_scan_items(v) matches Some((items, r)) ==> ((v.len() > 0 && v[0] == '"')
            ==> items.len() >= 1),
    decreases v.len(),
{
    if v.len() == 0 {
    } else if v[0] == ']' {
        if spec_scan_items(v) is Some {
            let (items, r) = spec_scan_items(v)->Some_0;
            assert(spec_ser_items(items) == Seq::<char>::empty());
            assert(v =~= spec_ser_items(items) + seq![']'] + r);
        }
    } else if v[0] == '"' {
        lemma_scan_sound(v.drop_first());
        if spec_scan_str(v.drop_first()) is Some {
            let (s0, r0) = spec_scan_str(v.drop_first())->Some_0;
            assert(v.drop_first() == spec_escape(s0) + seq!['"'] + r0);
            if r0.len() > 0 && r0[0] == ']' {
                if spec_scan_items(v) is Some {
                    let (items, r) = spec_scan_items(v)->Some_0;
                    assert(items == seq![s0] && r == r0.drop_first());
                    assert(items[0] == s0);
                    assert(spec_ser_items(items) == seq!['"'] + spec_escape(s0) + seq!['"']);
                    assert(r0 =~= seq![']'] + r0.drop_first());
                    assert(v =~= seq!['"'] + (spec_escape(s0) + seq!['"'] + r0));
                    assert(v =~= spec_ser_items(items) + seq![']'] + r);
                }
            } else if r0.len() >= 2 && r0[0] == ',' && r0[1] == '"' {
                lemma_scan_shrinks(v.drop_first());
                lemma_items_sound(r0.drop_first());
                if spec_scan_items(r0.drop_first()) is Some {
                    let (items2, rr) = spec_scan_items(r0.drop_first())->Some_0;
                    assert(r0.drop_first()[0] == '"');
                    assert(items2.len() >= 1);
                    let items = seq![s0] + items2;
                    assert(items.len() >= 2);
                    assert(items[0] == s0);
                    assert(items.drop_first() =~= items2);
                    assert(spec_ser_items(items) == seq!['"'] + spec_escape(s0) + seq!['"']
                        + seq![','] + spec_ser_items(items2));
                    assert(r0 =~= seq![','] + r0.drop_first());
                    assert(r0.drop_first() == spec_ser_items(items2) + seq![']'] + rr);
                    assert(v =~= seq!['"'] + (spec_escape(s0) + seq!['"'] + r0));
                    assert(v =~= spec_ser_items(items) + seq![']'] + rr);
                }
            }
        }
    }
}

/// Exec array reader, mirroring `spec_scan_items`.
pub fn parse_items(v: &Vec<char>, i: usize) -> (r: Option<(Vec<String>, usize)>)
    requires
        i <= v.len(),
    ensures
        match r {
            Some((items, j)) => i < j <= v.len() && spec_scan_items(v@.skip(i as int)) == Some(
                (strs_view(items@), v@.skip(j as int)),
            ),
            None => spec_scan_items(v@.skip(i as int)) is None,
        },
    decreases v.len() - i,
{
    let ghost sv = v@.skip(i as int);
    if i == v.len() {
        proof {
            assert(sv.len() == 0);
        }
        return None;
    }
    let c = v[i];
    proof {
        assert(sv[0] == c);
    }
    if c == ']' {
        let items: Vec<String> = Vec::new();
        proof {
            assert(sv.drop_first() =~= v@.skip(i + 1));
            assert(strs_view(items@) =~= Seq::<Seq<char>>::empty());
        }
        return Some((items, i + 1));
    }
    if c != '"' {
        return None;
    }
    let mut content: Vec<char> = Vec::new();
    let sr = scan_string(v, i + 1, &mut content);
    proof {
        assert(sv.drop_first() =~= v@.skip(i + 1));
    }
    match sr {
        None => {
            return None;
        },
        Some(j) => {
            if j == v.len() {
                proof {
                    assert(v@.skip(j as int).len() == 0);
                }
                return None;
            }
            let d = v[j];
            proof {
                assert(v@.skip(j as int)[0] == d);
            }
            if d == ']' {
                let s0 = chars_to_string(&content);
                let mut items: Vec<String> = Vec::new();
                items.push(s0);
                proof {
                    assert(v@.skip(j as int).drop_first() =~= v@.skip(j + 1));
                    assert(strs_view(items@) =~= seq![content@]);
                }
                return Some((items, j + 1));
            }
            if d == ',' && j + 1 < v.len() {
                let d2 = v[j + 1];
                proof {
                    assert(v@.skip(j as int)[1] == d2);
                }
                if d2 == '"' {
                    proof {
                        assert(v@.skip(j as int).drop_first() =~= v@.skip(j + 1));
                    }
                    match parse_items(v, j + 1) {
                        None => {
                            return None;
                        },
                        Some((rest_items, jj)) => {
                            let ghost rv = strs_view(rest_items@);
                            let s0 = chars_to_string(&content);
                            let mut items = rest_items;
                            items.insert(0, s0);
                            proof {
                                assert(strs_view(items@) =~= seq![content@] + rv);
                            }
                            return Some((items, jj));
                        },
                    }
                }
            }
            proof {
                let rr = v@.skip(j as int);
                if d == ',' {
                    if j + 1 < v.len() {
                        assert(rr[1] == v@[j + 1]);
                    } else {
                        assert(rr.len() == 1);
                    }
                }
            }
            return None;
        },
    }
}

/// Exec array writer from index `idx` on, mirroring `spec_ser_items`.
pub fn push_items_from(out: &mut Vec<char>, items: &Vec<String>, idx: usize)
    requires
        idx <= items.len(),
    ensures
        final(out)@ == old(out)@ + spec_ser_items(strs_view(items@).skip(idx as int)),
    decreases items.len() - idx,
{
    let ghost tail = strs_view(items@).skip(idx as int);
    if idx == items.len() {
        proof {
            assert(tail.len() == 0);
            assert(out@ =~= out@ + spec_ser_items(tail));
        }
        return;
    }
    out.push('"');
    let it: &String = &items[idx];
    push_escaped(out, it.as_str());
    out.push('"');
    if idx + 1 < items.len() {
        out.push(',');
        push_items_from(out, items, idx + 1);
    }
    proof {
        assert(tail[0] == items@[idx as int]@);
        assert(tail.drop_first() =~= strs_view(items@).skip(idx + 1));
        assert(out@ =~= old(out)@ + spec_ser_items(tail));
    }
}

// ---------------------------------------------------------------------------
// Fixed literal pieces
// ---------------------------------------------------------------------------

pub open spec fn spec_expect(v: Seq<char>, lit: Seq<char>) -> Option<Seq<char>> {
    if lit.len() <= v.len() && v.subrange(0, lit.len() as int) == lit {
        Some(v.skip(lit.len() as int))
    } else {
        None
    }
}

pub proof fn lemma_expect(lit: Seq<char>, rest: Seq<char>)
    ensures
        spec_expect(lit + rest, lit) == Some(rest),
{
    let v = lit + rest;
    assert(v.subrange(0, lit.len() as int) =~= lit);
    assert(v.skip(lit.len() as int) =~= rest);
}

pub proof fn lemma_expect_sound(v: Seq<char>, lit: Seq<char>)
    ensures
        spec_expect(v, lit) matches Some(w) ==> v == lit + w,
{
    if spec_expect(v, lit) is Some {
        let w = spec_expect(v, lit)->Some_0;
        assert(v =~= lit + w);
    }
}

/// Exec literal matcher, mirroring `spec_expect`.
pub fn expect_lit(v: &Vec<char>, i: usize, lit: &str) -> (r: Option<usize>)
    requires
        i <= v.len(),
    ensures
        match r {
            Some(j) => i <= j <= v.len() && spec_expect(v@.skip(i as int), lit@) == Some(
                v@.skip(j as int),
            ),
            None => spec_expect(v@.skip(i as int), lit@) is None,
        },
{
    let n: usize = lit.unicode_len();
    if n > v.len() - i {
        proof {
            assert(v@.skip(i as int).len() < lit@.len());
        }
        return None;
    }
    let mut t: usize = 0;
    while t < n
        invariant
            i <= v.len(),
            n == lit@.len(),
            n <= v.len() - i,
            t <= n,
            forall|q: int| 0 <= q < t ==> v@[i + q] == lit@[q],
        decreases n - t,
    {
        let a = v[i + t];
        let b = lit.get_char(t);
        if a != b {
            proof {
                let sv = v@.skip(i as int);
                assert(sv.subrange(0, n as int)[t as int] == a);
                assert(sv.subrange(0, n as int) != lit@);
            }
            return None;
        }
        t = t + 1;
    }
    proof {
        let sv = v@.skip(i as int);
        assert(sv.subrange(0, n as int) =~= lit@);
        assert(sv.skip(n as int) =~= v@.skip(i + n));
    }
    Some(i + n)
}

// ---------------------------------------------------------------------------
// Timestamps on the wire
// ---------------------------------------------------------------------------

/// Read a timestamp back from its RFC 3339 text.
pub open spec fn spec_parse_ts(s: Seq<char>) -> Option<Timestamp> {
    if s.len() == 30 && s[4] == '-' && s[7] == '-' && s[10] == 'T' && s[13] == ':' && s[16] == ':'
        && s[19] == '.' && s[29] == 'Z' && all_digits(s.subrange(0, 4)) && all_digits(
        s.subrange(5, 7),
    ) && all_digits(s.subrange(8, 10)) && all_digits(s.subrange(11, 13)) && all_digits(
        s.subrange(14, 16),
    ) && all_digits(s.subrange(17, 19)) && all_digits(s.subrange(20, 29)) {
        let t = Timestamp {
            year: parse_dec(s.subrange(0, 4)) as u32,
            month: parse_dec(s.subrange(5, 7)) as u32,
            day: parse_dec(s.subrange(8, 10)) as u32,
            hour: parse_dec(s.subrange(11, 13)) as u32,
            minute: parse_dec(s.subrange(14, 16)) as u32,
            second: parse_dec(s.subrange(17, 19)) as u32,
            nanos: parse_dec(s.subrange(20, 29)) as u32,
        };
        if t.wf() {
            Some(t)
        } else {
            None
        }
    } else {
        None
    }
}

/// Exec timestamp reader, mirroring `spec_parse_ts`.
pub fn parse_ts(s: &Vec<char>) -> (r: Option<Timestamp>)
    ensures
        r == spec_parse_ts(s@),
{
    if s.len() != 30 {
        return None;
    }
    if !(s[4] == '-' && s[7] == '-' && s[10] == 'T' && s[13] == ':' && s[16] == ':' && s[19] == '.'
        && s[29] == 'Z') {
        return None;
    }
    proof {
        reveal_with_fuel(pow10, 10);
    }
    let y = read_dec(s, 0, 4);
    let mo = read_dec(s, 5, 2);
    let d = read_dec(s, 8, 2);
    let h = read_dec(s, 11, 2);
    let mi = read_dec(s, 14, 2);
    let sec = read_dec(s, 17, 2);
    let ns = read_dec(s, 20, 9);
    match (y, mo, d, h, mi, sec, ns) {
        (Some(y), Some(mo), Some(d), Some(h), Some(mi), Some(sec), Some(ns)) => {
            proof {
                lemma_parse_dec_inverse(s@.subrange(0, 4));
                lemma_parse_dec_inverse(s@.subrange(5, 7));
                lemma_parse_dec_inverse(s@.subrange(8, 10));
                lemma_parse_dec_inverse(s@.subrange(11, 13));
                lemma_parse_dec_inverse(s@.subrange(14, 16));
                lemma_parse_dec_inverse(s@.subrange(17, 19));
                lemma_parse_dec_inverse(s@.subrange(20, 29));
            }
            let t = Timestamp::new(y, mo, d, h, mi, sec, ns);
            match t {
                Some(t) => Some(t),
                None => None,
            }
        },
        _ => None,
    }
}

/// The RFC 3339 text of a well-formed timestamp reads back as that timestamp.
pub proof fn lemma_parse_ts_complete(t: Timestamp)
    requires
        t.wf(),
    ensures
        spec_parse_ts(spec_rfc3339(t)) == Some(t),
{
    let s = spec_rfc3339(t);
    reveal_with_fuel(pow10, 10);
    lemma_dec_digits(t.year as int, 4);
    lemma_dec_digits(t.month as int, 2);
    lemma_dec_digits(t.day as int, 2);
    lemma_dec_digits(t.hour as int, 2);
    lemma_dec_digits(t.minute as int, 2);
    lemma_dec_digits(t.second as int, 2);
    lemma_dec_digits(t.nanos as int, 9);
    assert(s.len() == 30);
    assert(s.subrange(0, 4) =~= dec_digits(t.year as int, 4));
    assert(s.subrange(5, 7) =~= dec_digits(t.month as int, 2));
    assert(s.subrange(8, 10) =~= dec_digits(t.day as int, 2));
    assert(s.subrange(11, 13) =~= dec_digits(t.hour as int, 2));
    assert(s.subrange(14, 16) =~= dec_digits(t.minute as int, 2));
    assert(s.subrange(17, 19) =~= dec_digits(t.second as int, 2));
    assert(s.subrange(20, 29) =~= dec_digits(t.nanos as int, 9));
    lemma_fundamental_div_mod_converse(t.year as int, 10000, 0, t.year as int);
    lemma_fundamental_div_mod_converse(t.month as int, 100, 0, t.month as int);
    lemma_fundamental_div_mod_converse(t.day as int, 100, 0, t.day as int);
    lemma_fundamental_div_mod_converse(t.hour as int, 100, 0, t.hour as int);
    lemma_fundamental_div_mod_converse(t.minute as int, 100, 0, t.minute as int);
    lemma_fundamental_div_mod_converse(t.second as int, 100, 0, t.second as int);
    lemma_fundamental_div_mod_converse(t.nanos as int, 1000000000, 0, t.nanos as int);
    assert(s[4] == '-' && s[7] == '-' && s[10] == 'T' && s[13] == ':' && s[16] == ':' && s[19]
        == '.' && s[29] == 'Z');
}


// ---------------------------------------------------------------------------
// Capture requests on the wire
// ---------------------------------------------------------------------------

pub open spec fn spec_ser_capture(c: CaptureModel) -> Seq<char> {
    "{\"LogFileLocation\":\""@ + spec_escape(c.log_file_location) + seq!['"']
        + ",\"Capture\":["@ + spec_ser_items(c.capture) + seq![']'] + ",\"Environment\":["@
        + spec_ser_items(c.environment) + seq![']'] + seq!['}']
}

pub open spec fn spec_parse_capture(v: Seq<char>) -> Option<(CaptureModel, Seq<char>)> {
    match spec_expect(v, "{\"LogFileLocation\":\""@) {
        Option::None => None,
        Option::Some(v1) => match spec_scan_str(v1) {
            Option::None => None,
            Option::Some((loc, v2)) => match spec_expect(v2, ",\"Capture\":["@) {
                Option::None => None,
                Option::Some(v3) => match spec_scan_items(v3) {
                    Option::None => None,
                    Option::Some((cap, v4)) => match spec_expect(v4, ",\"Environment\":["@) {
                        Option::None => None,
                        Option::Some(v5) => match spec_scan_items(v5) {
                            Option::None => None,
                            Option::Some((env, v6)) => {
                                if v6.len() >= 1 && v6[0] == '}' {
                                    Some(
                                        (
                                            CaptureModel {
                                                log_file_location: loc,
                                                capture: cap,
                                                environment: env,
                                            },
                                            v6.drop_first(),
                                        ),
                                    )
                                } else {
                                    None
                                }
                            },
                        },
                    },
                },
            },
        },
    }
}

#[verifier::rlimit(100)]
#[verifier::spinoff_prover]
pub proof fn lemma_parse_capture_complete(c: CaptureModel, rest: Seq<char>)
    ensures
        spec_parse_capture(spec_ser_capture(c) + rest) == Some((c, rest)),
{
    let l1 = "{\"LogFileLocation\":\""@;
    let l2 = ",\"Capture\":["@;
    let l3 = ",\"Environment\":["@;
    let v = spec_ser_capture(c) + rest;
    let t6 = seq!['}'] + rest;
    let t5 = spec_ser_items(c.environment) + seq![']'] + t6;
    let t4 = l3 + t5;
    let t3 = spec_ser_items(c.capture) + seq![']'] + t4;
    let t2 = l2 + t3;
    let t1 = spec_escape(c.log_file_location) + seq!['"'] + t2;
    assert(v =~= l1 + t1);
    lemma_expect(l1, t1);
    lemma_scan_escape(c.log_file_location, t2);
    assert(t2 =~= l2 + t3);
    lemma_expect(l2, t3);
    lemma_scan_items(c.capture, t4);
    assert(t4 =~= l3 + t5);
    lemma_expect(l3, t5);
    lemma_scan_items(c.environment, t6);
    assert(t6[0] == '}');
    assert(t6.drop_first() =~= rest);
    assert(spec_parse_capture(v)->Some_0.0 == c);
}

/// Exec capture writer, mirroring `spec_ser_capture`.
pub fn push_capture(out: &mut Vec<char>, c: &CaptureRequest)
    ensures
        final(out)@ == old(out)@ + spec_ser_capture(c@),
{
    push_str_chars(out, "{\"LogFileLocation\":\"");
    push_escaped(out, c.log_file_location.as_str());
    out.push('"');
    push_str_chars(out, ",\"Capture\":[");
    push_items_from(out, &c.capture, 0);
    out.push(']');
    push_str_chars(out, ",\"Environment\":[");
    push_items_from(out, &c.environment, 0);
    out.push(']');
    out.push('}');
    proof {
        assert(strs_view(c.capture@).skip(0) =~= c@.capture);
        assert(strs_view(c.environment@).skip(0) =~= c@.environment);
        assert(out@ =~= old(out)@ + spec_ser_capture(c@));
    }
}

/// Exec capture reader, mirroring `spec_parse_capture`.
pub fn parse_capture(v: &Vec<char>, i: usize) -> (r: Option<(CaptureRequest, usize)>)
    requires
        i <= v.len(),
    ensures
        match r {
            Some((c, j)) => i <= j <= v.len() && spec_parse_capture(v@.skip(i as int)) == Some(
                (c@, v@.skip(j as int)),
            ),
            None => spec_parse_capture(v@.skip(i as int)) is None,
        },
{
    let j1 = match expect_lit(v, i, "{\"LogFileLocation\":\"") {
        Some(j) => j,
        None => {
            return None;
        },
    };
    let mut loc: Vec<char> = Vec::new();
    let j2 = match scan_string(v, j1, &mut loc) {
        Some(j) => j,
        None => {
            return None;
        },
    };
    let j3 = match expect_lit(v, j2, ",\"Capture\":[") {
        Some(j) => j,
        None => {
            return None;
        },
    };
    let (cap, j4) = match parse_items(v, j3) {
        Some(x) => x,
        None => {
            return None;
        },
    };
    let j5 = match expect_lit(v, j4, ",\"Environment\":[") {
        Some(j) => j,
        None => {
            return None;
        },
    };
    let (env, j6) = match parse_items(v, j5) {
        Some(x) => x,
        None => {
            return None;
        },
    };
    if j6 == v.len() {
        proof {
            assert(v@.skip(j6 as int).len() == 0);
        }
        return None;
    }
    let b = v[j6];
    proof {
        assert(v@.skip(j6 as int)[0] == b);
    }
    if b != '}' {
        return None;
    }
    let c = CaptureRequest { log_file_location: chars_to_string(&loc), capture: cap, environment: env };
    proof {
        assert(v@.skip(j6 as int).drop_first() =~= v@.skip(j6 + 1));
        assert(spec_parse_capture(v@.skip(i as int))->Some_0.0 == c@);
    }
    Some((c, j6 + 1))
}

// ---------------------------------------------------------------------------
// Fault signatures on the wire
// ---------------------------------------------------------------------------

pub open spec fn spec_ser_fault(f: FaultModel) -> Seq<char> {
    "{\"ApplicationName\":\""@ + spec_escape(f.application_name) + seq!['"']
        + ",\"FaultCode\":\""@ + spec_escape(f.fault_code) + seq!['"'] + ",\"Type\":\""@
        + spec_escape(f.type_field) + seq!['"'] + ",\"Severity\":\""@ + spec_escape(f.severity)
        + seq!['"'] + ",\"Description\":\""@ + spec_escape(f.description) + seq!['"']
        + ",\"Timestamp\":\""@ + spec_rfc3339(f.timestamp) + seq!['"']
        + ",\"CaptureRequest\":"@ + spec_ser_capture(f.capture_request) + seq!['}']
}

pub open spec fn spec_parse_fault(v: Seq<char>) -> Option<FaultModel> {
    match spec_expect(v, "{\"ApplicationName\":\""@) {
        Option::None => None,
        Option::Some(v1) => match spec_scan_str(v1) {
            Option::None => None,
            Option::Some((app, v2)) => match spec_expect(v2, ",\"FaultCode\":\""@) {
                Option::None => None,
                Option::Some(v3) => match spec_scan_str(v3) {
                    Option::None => None,
                    Option::Some((fc, v4)) => match spec_expect(v4, ",\"Type\":\""@) {
                        Option::None => None,
                        Option::Some(v5) => match spec_scan_str(v5) {
                            Option::None => None,
                            Option::Some((ty, v6)) => match spec_expect(v6, ",\"Severity\":\""@) {
                                Option::None => None,
                                Option::Some(v7) => match spec_scan_str(v7) {
                                    Option::None => None,
                                    Option::Some((sev, v8)) => match spec_expect(
                                        v8,
                                        ",\"Description\":\""@,
                                    ) {
                                        Option::None => None,
                                        Option::Some(v9) => match spec_scan_str(v9) {
                                            Option::None => None,
                                            Option::Some((desc, v10)) => match spec_expect(
                                                v10,
                                                ",\"Timestamp\":\""@,
                                            ) {
                                                Option::None => None,
                                                Option::Some(v11) => match spec_scan_str(v11) {
                                                    Option::None => None,
                                                    Option::Some((tsc, v12)) => match spec_parse_ts(
                                                        tsc,
                                                    ) {
                                                        Option::None => None,
                                                        Option::Some(ts) => match spec_expect(
                                                            v12,
                                                            ",\"CaptureRequest\":"@,
                                                        ) {
                                                            Option::None => None,
                                                            Option::Some(v13) => match spec_parse_capture(
                                                                v13,
                                                            ) {
                                                                Option::None => None,
                                                                Option::Some((cm, v14)) => {
                                                                    if v14.len() == 1 && v14[0]
                                                                        == '}' {
                                                                        Some(
                                                                            FaultModel {
                                                                                application_name: app,
                                                                                fault_code: fc,
                                                                                type_field: ty,
                                                                                severity: sev,
                                                                                description: desc,
                                                                                timestamp: ts,
                                                                                capture_request: cm,
                                                                            },
                                                                        )
                                                                    } else {
                                                                        None
                                                                    }
                                                                },
                                                            },
                                                        },
                                                    },
                                                },
                                            },
                                        },
                                    },
                                },
                            },
                        },
                    },
                },
            },
        },
    }
}

pub open spec fn all_plain(s: Seq<char>) -> bool {
    forall|i: int| 0 <= i < s.len() ==> is_plain_char(#[trigger] s[i])
}

proof fn lemma_all_plain_concat(a: Seq<char>, b: Seq<char>)
    requires
        all_plain(a),
        all_plain(b),
    ensures
        all_plain(a + b),
{
    assert forall|i: int| 0 <= i < (a + b).len() implies is_plain_char(#[trigger] (a + b)[i]) by {
        if i < a.len() {
            assert((a + b)[i] == a[i]);
        } else {
            assert((a + b)[i] == b[i - a.len()]);
        }
    }
}

proof fn lemma_digits_plain(s: Seq<char>)
    requires
        all_digits(s),
    ensures
        all_plain(s),
{
    assert forall|i: int| 0 <= i < s.len() implies is_plain_char(#[trigger] s[i]) by {
        assert(is_digit_char(s[i]));
        assert(('"' as u32) == 34);
        assert(('\\' as u32) == 92);
        if s[i] == '"' {
            assert(s[i] as u32 == 34);
        }
        if s[i] == '\\' {
            assert(s[i] as u32 == 92);
        }
    }
}

/// An RFC 3339 text needs no escaping.
proof fn lemma_rfc3339_plain(t: Timestamp)
    requires
        t.wf(),
    ensures
        spec_escape(spec_rfc3339(t)) == spec_rfc3339(t),
{
    lemma_dec_digits(t.year as int, 4);
    lemma_dec_digits(t.month as int, 2);
    lemma_dec_digits(t.day as int, 2);
    lemma_dec_digits(t.hour as int, 2);
    lemma_dec_digits(t.minute as int, 2);
    lemma_dec_digits(t.second as int, 2);
    lemma_dec_digits(t.nanos as int, 9);
    lemma_digits_plain(dec_digits(t.year as int, 4));
    lemma_digits_plain(dec_digits(t.month as int, 2));
    lemma_digits_plain(dec_digits(t.day as int, 2));
    lemma_digits_plain(dec_digits(t.hour as int, 2));
    lemma_digits_plain(dec_digits(t.minute as int, 2));
    lemma_digits_plain(dec_digits(t.second as int, 2));
    lemma_digits_plain(dec_digits(t.nanos as int, 9));
    let s = spec_rfc3339(t);
    assert forall|i: int| 0 <= i < s.len() implies is_plain_char(#[trigger] s[i]) by {
        assert(s.len() == 30);
        if i == 4 || i == 7 {
            assert(s[i] == '-');
        } else if i == 10 {
            assert(s[i] == 'T');
        } else if i == 13 || i == 16 {
            assert(s[i] == ':');
        } else if i == 19 {
            assert(s[i] == '.');
        } else if i == 29 {
            assert(s[i] == 'Z');
        } else if i < 4 {
            assert(s[i] == dec_digits(t.year as int, 4)[i]);
        } else if i < 7 {
            assert(s[i] == dec_digits(t.month as int, 2)[i - 5]);
        } else if i < 10 {
            assert(s[i] == dec_digits(t.day as int, 2)[i - 8]);
        } else if i < 13 {
            assert(s[i] == dec_digits(t.hour as int, 2)[i - 11]);
        } else if i < 16 {
            assert(s[i] == dec_digits(t.minute as int, 2)[i - 14]);
        } else if i < 19 {
            assert(s[i] == dec_digits(t.second as int, 2)[i - 17]);
        } else {
            assert(s[i] == dec_digits(t.nanos as int, 9)[i - 20]);
        }
    }
    lemma_escape_plain(s);
}

/// `spec_ser_fault`, re-associated so the pieces peel off the front the way
/// the reader consumes them.
#[verifier::rlimit(100)]
#[verifier::spinoff_prover]
proof fn lemma_ser_fault_shape(f: FaultModel)
    ensures
        spec_ser_fault(f) == "{\"ApplicationName\":\""@ + (spec_escape(f.application_name)
            + seq!['"'] + (",\"FaultCode\":\""@ + (spec_escape(f.fault_code) + seq!['"'] + (
        ",\"Type\":\""@ + (spec_escape(f.type_field) + seq!['"'] + (",\"Severity\":\""@ + (
        spec_escape(f.severity) + seq!['"'] + (",\"Description\":\""@ + (spec_escape(
            f.description,
        ) + seq!['"'] + (",\"Timestamp\":\""@ + (spec_rfc3339(f.timestamp) + seq!['"'] + (
        ",\"CaptureRequest\":"@ + (spec_ser_capture(f.capture_request) + seq!['}']))))))))))))),
{
    assert(spec_ser_fault(f) =~= "{\"ApplicationName\":\""@ + (spec_escape(f.application_name)
        + seq!['"'] + (",\"FaultCode\":\""@ + (spec_escape(f.fault_code) + seq!['"'] + (
    ",\"Type\":\""@ + (spec_escape(f.type_field) + seq!['"'] + (",\"Severity\":\""@ + (
    spec_escape(f.severity) + seq!['"'] + (",\"Description\":\""@ + (spec_escape(f.description)
        + seq!['"'] + (",\"Timestamp\":\""@ + (spec_rfc3339(f.timestamp) + seq!['"'] + (
    ",\"CaptureRequest\":"@ + (spec_ser_capture(f.capture_request) + seq!['}']))))))))))))));
}

/// Decoding inverts encoding: the wire text of a well-formed fault signature
/// reads back as exactly that signature.
#[verifier::rlimit(100)]
pub proof fn lemma_fault_round_trip(f: FaultModel)
    requires
        f.wf(),
    ensures
        spec_parse_fault(spec_ser_fault(f)) == Some(f),
{
    let l1 = "{\"ApplicationName\":\""@;
    let l2 = ",\"FaultCode\":\""@;
    let l3 = ",\"Type\":\""@;
    let l4 = ",\"Severity\":\""@;
    let l5 = ",\"Description\":\""@;
    let l6 = ",\"Timestamp\":\""@;
    let l7 = ",\"CaptureRequest\":"@;
    let v = spec_ser_fault(f);
    let t13 = spec_ser_capture(f.capture_request) + seq!['}'];
    let t12 = l7 + t13;
    let t11 = spec_rfc3339(f.timestamp) + seq!['"'] + t12;
    let t10 = l6 + t11;
    let t9 = spec_escape(f.description) + seq!['"'] + t10;
    let t8 = l5 + t9;
    let t7 = spec_escape(f.severity) + seq!['"'] + t8;
    let t6 = l4 + t7;
    let t5 = spec_escape(f.type_field) + seq!['"'] + t6;
    let t4 = l3 + t5;
    let t3 = spec_escape(f.fault_code) + seq!['"'] + t4;
    let t2 = l2 + t3;
    let t1 = spec_escape(f.application_name) + seq!['"'] + t2;
    lemma_ser_fault_shape(f);
    assert(v == l1 + t1);
    lemma_expect(l1, t1);
    lemma_scan_escape(f.application_name, t2);
    assert(t2 =~= l2 + t3);
    lemma_expect(l2, t3);
    lemma_scan_escape(f.fault_code, t4);
    assert(t4 =~= l3 + t5);
    lemma_expect(l3, t5);
    lemma_scan_escape(f.type_field, t6);
    assert(t6 =~= l4 + t7);
    lemma_expect(l4, t7);
    lemma_scan_escape(f.severity, t8);
    assert(t8 =~= l5 + t9);
    lemma_expect(l5, t9);
    lemma_scan_escape(f.description, t10);
    assert(t10 =~= l6 + t11);
    lemma_expect(l6, t11);
    lemma_rfc3339_plain(f.timestamp);
    assert(t11 =~= spec_escape(spec_rfc3339(f.timestamp)) + seq!['"'] + t12);
    lemma_scan_escape(spec_rfc3339(f.timestamp), t12);
    lemma_parse_ts_complete(f.timestamp);
    assert(t12 =~= l7 + t13);
    lemma_expect(l7, t13);
    lemma_parse_capture_complete(f.capture_request, seq!['}']);
    let t14 = seq!['}'];
    assert(t14.len() == 1 && t14[0] == '}');
    assert(spec_parse_fault(v)->Some_0 == f);
}

/// Exec fault writer, mirroring `spec_ser_fault`.
pub fn serialize_fault(f: &FaultSignature) -> (out: Vec<char>)
    ensures
        out@ == spec_ser_fault(f@),
{
    let mut out: Vec<char> = Vec::new();
    push_str_chars(&mut out, "{\"ApplicationName\":\"");
    push_escaped(&mut out, f.application_name.as_str());
    out.push('"');
    push_str_chars(&mut out, ",\"FaultCode\":\"");
    push_escaped(&mut out, f.fault_code.as_str());
    out.push('"');
    push_str_chars(&mut out, ",\"Type\":\"");
    push_escaped(&mut out, f.type_field.as_str());
    out.push('"');
    push_str_chars(&mut out, ",\"Severity\":\"");
    push_escaped(&mut out, f.severity.as_str());
    out.push('"');
    push_str_chars(&mut out, ",\"Description\":\"");
    push_escaped(&mut out, f.description.as_str());
    out.push('"');
    push_str_chars(&mut out, ",\"Timestamp\":\"");
    push_rfc3339(&mut out, &f.timestamp);
    out.push('"');
    push_str_chars(&mut out, ",\"CaptureRequest\":");
    push_capture(&mut out, &f.capture_request);
    out.push('}');
    proof {
        assert(out@ =~= spec_ser_fault(f@));
    }
    out
}

/// Exec fault reader, mirroring `spec_parse_fault`.
pub fn parse_fault(v: &Vec<char>) -> (r: Option<FaultSignature>)
    ensures
        match r {
            Some(f) => spec_parse_fault(v@) == Some(f@),
            None => spec_parse_fault(v@) is None,
        },
{
    proof {
        assert(v@.skip(0) =~= v@);
    }
    let j1 = match expect_lit(v, 0, "{\"ApplicationName\":\"") {
        Some(j) => j,
        None => {
            return None;
        },
    };
    let mut app: Vec<char> = Vec::new();
    let j2 = match scan_string(v, j1, &mut app) {
        Some(j) => j,
        None => {
            return None;
        },
    };
    let j3 = match expect_lit(v, j2, ",\"FaultCode\":\"") {
        Some(j) => j,
        None => {
            return None;
        },
    };
    let mut fc: Vec<char> = Vec::new();
    let j4 = match scan_string(v, j3, &mut fc) {
        Some(j) => j,
        None => {
            return None;
        },
    };
    let j5 = match expect_lit(v, j4, ",\"Type\":\"") {
        Some(j) => j,
        None => {
            return None;
        },
    };
    let mut ty: Vec<char> = Vec::new();
    let j6 = match scan_string(v, j5, &mut ty) {
        Some(j) => j,
        None => {
            return None;
        },
    };
    let j7 = match expect_lit(v, j6, ",\"Severity\":\"") {
        Some(j) => j,
        None => {
            return None;
        },
    };
    let mut sev: Vec<char> = Vec::new();
    let j8 = match scan_string(v, j7, &mut sev) {
        Some(j) => j,
        None => {
            return None;
        },
    };
    let j9 = match expect_lit(v, j8, ",\"Description\":\"") {
        Some(j) => j,
        None => {
            return None;
        },
    };
    let mut desc: Vec<char> = Vec::new();
    let j10 = match scan_string(v, j9, &mut desc) {
        Some(j) => j,
        None => {
            return None;
        },
    };
    let j11 = match expect_lit(v, j10, ",\"Timestamp\":\"") {
        Some(j) => j,
        None => {
            return None;
        },
    };
    let mut tsc: Vec<char> = Vec::new();
    let j12 = match scan_string(v, j11, &mut tsc) {
        Some(j) => j,
        None => {
            return None;
        },
    };
    let ts = match parse_ts(&tsc) {
        Some(t) => t,
        None => {
            return None;
        },
    };
    let j13 = match expect_lit(v, j12, ",\"CaptureRequest\":") {
        Some(j) => j,
        None => {
            return None;
        },
    };
    let (cap, j14) = match parse_capture(v, j13) {
        Some(x) => x,
        None => {
            return None;
        },
    };
    if v.len() - j14 != 1 {
        proof {
            assert(v@.skip(j14 as int).len() != 1);
        }
        return None;
    }
    let b = v[j14];
    proof {
        assert(v@.skip(j14 as int)[0] == b);
    }
    if b != '}' {
        return None;
    }
    let f = FaultSignature {
        application_name: chars_to_string(&app),
        fault_code: chars_to_string(&fc),
        type_field: chars_to_string(&ty),
        severity: chars_to_string(&sev),
        description: chars_to_string(&desc),
        timestamp: ts,
        capture_request: cap,
    };
    proof {
        assert(spec_parse_fault(v@)->Some_0 == f@);
    }
    Some(f)
}

// ---------------------------------------------------------------------------
// Registration requests on the wire
// ---------------------------------------------------------------------------

pub open spec fn spec_ser_register(application: Seq<char>, version: Seq<char>) -> Seq<char> {
    "{\"application\":\""@ + spec_escape(application) + seq!['"'] + ",\"version\":\""@
        + spec_escape(version) + seq!['"'] + seq!['}']
}

/// Exec registration writer, mirroring `spec_ser_register`.
pub fn serialize_register(r: &RegisterRequest) -> (out: Vec<char>)
    ensures
        out@ == spec_ser_register(r.application@, r.version@),
{
    let mut out: Vec<char> = Vec::new();
    push_str_chars(&mut out, "{\"application\":\"");
    push_escaped(&mut out, r.application.as_str());
    out.push('"');
    push_str_chars(&mut out, ",\"version\":\"");
    push_escaped(&mut out, r.version.as_str());
    out.push('"');
    out.push('}');
    proof {
        assert(out@ =~= spec_ser_register(r.application@, r.version@));
    }
    out
}


/// A timestamp the reader accepts came from exactly its RFC 3339 text.
pub proof fn lemma_parse_ts_sound(s: Seq<char>)
    ensures
        spec_parse_ts(s) matches Some(t) ==> t.wf() && s == spec_rfc3339(t),
{
    if spec_parse_ts(s) is Some {
        let t = spec_parse_ts(s)->Some_0;
        reveal_with_fuel(pow10, 10);
        lemma_parse_dec_inverse(s.subrange(0, 4));
        lemma_parse_dec_inverse(s.subrange(5, 7));
        lemma_parse_dec_inverse(s.subrange(8, 10));
        lemma_parse_dec_inverse(s.subrange(11, 13));
        lemma_parse_dec_inverse(s.subrange(14, 16));
        lemma_parse_dec_inverse(s.subrange(17, 19));
        lemma_parse_dec_inverse(s.subrange(20, 29));
        assert(t.year as int == parse_dec(s.subrange(0, 4)));
        assert(t.month as int == parse_dec(s.subrange(5, 7)));
        assert(t.day as int == parse_dec(s.subrange(8, 10)));
        assert(t.hour as int == parse_dec(s.subrange(11, 13)));
        assert(t.minute as int == parse_dec(s.subrange(14, 16)));
        assert(t.second as int == parse_dec(s.subrange(17, 19)));
        assert(t.nanos as int == parse_dec(s.subrange(20, 29)));
        assert(dec_digits(t.year as int, 4) == s.subrange(0, 4));
        assert(dec_digits(t.month as int, 2) == s.subrange(5, 7));
        assert(dec_digits(t.day as int, 2) == s.subrange(8, 10));
        assert(dec_digits(t.hour as int, 2) == s.subrange(11, 13));
        assert(dec_digits(t.minute as int, 2) == s.subrange(14, 16));
        assert(dec_digits(t.second as int, 2) == s.subrange(17, 19));
        assert(dec_digits(t.nanos as int, 9) == s.subrange(20, 29));
        assert(s =~= spec_rfc3339(t));
    }
}

/// A capture request the reader accepts came from exactly its wire text.
#[verifier::rlimit(100)]
pub proof fn lemma_parse_capture_sound(v: Seq<char>)
    ensures
        spec_parse_capture(v) matches Some((c, r)) ==> v == spec_ser_capture(c) + r,
{
    let l1 = "{\"LogFileLocation\":\""@;
    let l2 = ",\"Capture\":["@;
    let l3 = ",\"Environment\":["@;
    if spec_parse_capture(v) is Some {
        let (c, r) = spec_parse_capture(v)->Some_0;
        let v1 = spec_expect(v, l1)->Some_0;
        lemma_expect_sound(v, l1);
        let (loc, v2) = spec_scan_str(v1)->Some_0;
        lemma_scan_sound(v1);
        let v3 = spec_expect(v2, l2)->Some_0;
        lemma_expect_sound(v2, l2);
        let (cap, v4) = spec_scan_items(v3)->Some_0;
        lemma_items_sound(v3);
        let v5 = spec_expect(v4, l3)->Some_0;
        lemma_expect_sound(v4, l3);
        let (env, v6) = spec_scan_items(v5)->Some_0;
        lemma_items_sound(v5);
        assert(v6[0] == '}' && r == v6.drop_first());
        assert(v6 =~= seq!['}'] + r);
        assert(v =~= spec_ser_capture(c) + r);
    }
}

/// What the fault reader accepts is exactly the fault encoder's text: parsing
/// succeeds only on the canonical wire form of the signature it returns.
#[verifier::rlimit(100)]
#[verifier::spinoff_prover]
pub proof fn lemma_fault_parse_sound(v: Seq<char>)
    ensures
        spec_parse_fault(v) matches Some(m) ==> v == spec_ser_fault(m),
{
    let l1 = "{\"ApplicationName\":\""@;
    let l2 = ",\"FaultCode\":\""@;
    let l3 = ",\"Type\":\""@;
    let l4 = ",\"Severity\":\""@;
    let l5 = ",\"Description\":\""@;
    let l6 = ",\"Timestamp\":\""@;
    let l7 = ",\"CaptureRequest\":"@;
    if spec_parse_fault(v) is Some {
        let m = spec_parse_fault(v)->Some_0;
        let v1 = spec_expect(v, l1)->Some_0;
        lemma_expect_sound(v, l1);
        let (app, v2) = spec_scan_str(v1)->Some_0;
        lemma_scan_sound(v1);
        let v3 = spec_expect(v2, l2)->Some_0;
        lemma_expect_sound(v2, l2);
        let (fc, v4) = spec_scan_str(v3)->Some_0;
        lemma_scan_sound(v3);
        let v5 = spec_expect(v4, l3)->Some_0;
        lemma_expect_sound(v4, l3);
        let (ty, v6) = spec_scan_str(v5)->Some_0;
        lemma_scan_sound(v5);
        let v7 = spec_expect(v6, l4)->Some_0;
        lemma_expect_sound(v6, l4);
        let (sev, v8) = spec_scan_str(v7)->Some_0;
        lemma_scan_sound(v7);
        let v9 = spec_expect(v8, l5)->Some_0;
        lemma_expect_sound(v8, l5);
        let (desc, v10) = spec_scan_str(v9)->Some_0;
        lemma_scan_sound(v9);
        let v11 = spec_expect(v10, l6)->Some_0;
        lemma_expect_sound(v10, l6);
        let (tsc, v12) = spec_scan_str(v11)->Some_0;
        lemma_scan_sound(v11);
        let ts = spec_parse_ts(tsc)->Some_0;
        lemma_parse_ts_sound(tsc);
        assert(spec_escape(tsc) == tsc) by {
            lemma_rfc3339_plain(ts);
        }
        let v13 = spec_expect(v12, l7)->Some_0;
        lemma_expect_sound(v12, l7);
        let (cm, v14) = spec_parse_capture(v13)->Some_0;
        lemma_parse_capture_sound(v13);
        assert(v14.len() == 1 && v14[0] == '}');
        assert(v14 =~= seq!['}']);
        let w13 = spec_ser_capture(cm) + seq!['}'];
        assert(v13 == w13);
        let w12 = l7 + w13;
        assert(v12 == w12);
        let w11 = spec_rfc3339(ts) + seq!['"'] + w12;
        assert(v11 == w11);
        let w10 = l6 + w11;
        assert(v10 == w10);
        let w9 = spec_escape(desc) + seq!['"'] + w10;
        assert(v9 == w9);
        let w8 = l5 + w9;
        assert(v8 == w8);
        let w7 = spec_escape(sev) + seq!['"'] + w8;
        assert(v7 == w7);
        let w6 = l4 + w7;
        assert(v6 == w6);
        let w5 = spec_escape(ty) + seq!['"'] + w6;
        assert(v5 == w5);
        let w4 = l3 + w5;
        assert(v4 == w4);
        let w3 = spec_escape(fc) + seq!['"'] + w4;
        assert(v3 == w3);
        let w2 = l2 + w3;
        assert(v2 == w2);
        let w1 = spec_escape(app) + seq!['"'] + w2;
        assert(v1 == w1);
        assert(v == l1 + w1);
        lemma_ser_fault_shape(m);
        assert(v == spec_ser_fault(m));
    }
}

// ---------------------------------------------------------------------------
// Pretty form, for the pre-dispatch info entry
// ---------------------------------------------------------------------------

pub open spec fn spec_ser_capture_pretty(c: CaptureModel) -> Seq<char> {
    "{\n    \"LogFileLocation\": \""@ + spec_escape(c.log_file_location) + seq!['"']
        + ",\n    \"Capture\": ["@ + spec_ser_items(c.capture) + seq![']']
        + ",\n    \"Environment\": ["@ + spec_ser_items(c.environment) + seq![']']
        + "\n  }"@
}

pub open spec fn spec_ser_fault_pretty(f: FaultModel) -> Seq<char> {
    "{\n  \"ApplicationName\": \""@ + spec_escape(f.application_name) + seq!['"']
        + ",\n  \"FaultCode\": \""@ + spec_escape(f.fault_code) + seq!['"']
        + ",\n  \"Type\": \""@ + spec_escape(f.type_field) + seq!['"']
        + ",\n  \"Severity\": \""@ + spec_escape(f.severity) + seq!['"']
        + ",\n  \"Description\": \""@ + spec_escape(f.description) + seq!['"']
        + ",\n  \"Timestamp\": \""@ + spec_rfc3339(f.timestamp) + seq!['"']
        + ",\n  \"CaptureRequest\": "@ + spec_ser_capture_pretty(f.capture_request) + "\n}"@
}

/// Exec pretty capture writer, mirroring `spec_ser_capture_pretty`.
fn push_capture_pretty(out: &mut Vec<char>, c: &CaptureRequest)
    ensures
        final(out)@ == old(out)@ + spec_ser_capture_pretty(c@),
{
    push_str_chars(out, "{\n    \"LogFileLocation\": \"");
    push_escaped(out, c.log_file_location.as_str());
    out.push('"');
    push_str_chars(out, ",\n    \"Capture\": [");
    push_items_from(out, &c.capture, 0);
    out.push(']');
    push_str_chars(out, ",\n    \"Environment\": [");
    push_items_from(out, &c.environment, 0);
    out.push(']');
    push_str_chars(out, "\n  }");
    proof {
        assert(strs_view(c.capture@).skip(0) =~= c@.capture);
        assert(strs_view(c.environment@).skip(0) =~= c@.environment);
        assert(out@ =~= old(out)@ + spec_ser_capture_pretty(c@));
    }
}

/// Exec pretty writer, mirroring `spec_ser_fault_pretty`; same data as the
/// wire form, laid out for reading.
#[verifier::rlimit(100)]
#[verifier::spinoff_prover]
pub fn serialize_fault_pretty(f: &FaultSignature) -> (out: Vec<char>)
    ensures
        out@ == spec_ser_fault_pretty(f@),
{
    let mut out: Vec<char> = Vec::new();
    push_str_chars(&mut out, "{\n  \"ApplicationName\": \"");
    push_escaped(&mut out, f.application_name.as_str());
    out.push('"');
    push_str_chars(&mut out, ",\n  \"FaultCode\": \"");
    push_escaped(&mut out, f.fault_code.as_str());
    out.push('"');
    push_str_chars(&mut out, ",\n  \"Type\": \"");
    push_escaped(&mut out, f.type_field.as_str());
    out.push('"');
    push_str_chars(&mut out, ",\n  \"Severity\": \"");
    push_escaped(&mut out, f.severity.as_str());
    out.push('"');
    push_str_chars(&mut out, ",\n  \"Description\": \"");
    push_escaped(&mut out, f.description.as_str());
    out.push('"');
    push_str_chars(&mut out, ",\n  \"Timestamp\": \"");
    push_rfc3339(&mut out, &f.timestamp);
    out.push('"');
    push_str_chars(&mut out, ",\n  \"CaptureRequest\": ");
    push_capture_pretty(&mut out, &f.capture_request);
    push_str_chars(&mut out, "\n}");
    proof {
        assert(out@ =~= spec_ser_fault_pretty(f@));
    }
    out
}


} // verus!
