//! The JSON text of request identifiers: a string literal or a decimal integer.
//!
//! Encoding writes each identifier in one canonical form, and decoding accepts exactly
//! the canonical forms, so that the text of an identifier reads back as that identifier.

use vstd::prelude::*;
use crate::request::{Id, IdView};

verus! {

// ----- Decimal integers -----

/// Whether `c` is an ASCII decimal digit.
pub open spec fn is_digit(c: char) -> bool {
    '0' <= c && c <= '9'
}

/// The digit that writes `d`, for `d < 10`.
pub open spec fn digit_char(d: nat) -> char {
    ((d + 48) as u8) as char
}

/// The value of a decimal digit.
pub open spec fn digit_value(c: char) -> nat {
    ((c as u32) - 48) as nat
}

/// Whether every character of `x` is a decimal digit.
pub open spec fn all_digits(x: Seq<char>) -> bool {
    forall|i: int| 0 <= i < x.len() ==> is_digit(#[trigger] x[i])
}

/// The value of a sequence of decimal digits, most significant first.
pub open spec fn digits_value(x: Seq<char>) -> nat
    decreases x.len(),
{
    if x.len() == 0 {
        0
    } else {
        digits_value(x.drop_last()) * 10 + digit_value(x.last())
    }
}

/// The decimal digits of `n`, most significant first, without leading zeros.
pub open spec fn encode_num(n: nat) -> Seq<char>
    decreases n,
{
    if n < 10 {
        seq![digit_char(n)]
    } else {
        encode_num(n / 10).push(digit_char(n % 10))
    }
}

/// Whether `x` is a decimal numeral in canonical form: digits only, at least one,
/// and no leading zero unless the numeral is `0` itself.
pub open spec fn is_canonical_numeral(x: Seq<char>) -> bool {
    &&& x.len() >= 1
    &&& all_digits(x)
    &&& (x.len() == 1 || x[0] != '0')
}

proof fn lemma_digit_roundtrip(d: nat)
    requires
        d < 10,
    ensures
        is_digit(digit_char(d)),
        digit_value(digit_char(d)) == d,
        digit_char(d) != '"',
{
}

proof fn lemma_char_digit_roundtrip(c: char)
    requires
        is_digit(c),
    ensures
        digit_value(c) < 10,
        digit_char(digit_value(c)) == c,
{
}

/// The digits written for `n` form a canonical numeral whose value is `n`.
proof fn lemma_encode_num(n: nat)
    ensures
        is_canonical_numeral(encode_num(n)),
        digits_value(encode_num(n)) == n,
        encode_num(n)[0] == '0' ==> n == 0,
    decreases n,
{
    if n < 10 {
        lemma_digit_roundtrip(n);
        let x = encode_num(n);
        assert(x.drop_last() =~= Seq::<char>::empty());
        assert(digits_value(x.drop_last()) == 0);
        assert(x.last() == digit_char(n));
    } else {
        let q = n / 10;
        let r = n % 10;
        lemma_encode_num(q);
        lemma_digit_roundtrip(r);
        let x = encode_num(q);
        let y = x.push(digit_char(r));
        assert(y.drop_last() =~= x);
        assert(n == q * 10 + r);
        assert forall|i: int| 0 <= i < y.len() implies is_digit(#[trigger] y[i]) by {
            if i < x.len() {
                assert(y[i] == x[i]);
            }
        }
        assert(y[0] == x[0]);
    }
}

/// A canonical numeral that does not start with zero has a positive value.
proof fn lemma_numeral_positive(x: Seq<char>)
    requires
        x.len() >= 1,
        all_digits(x),
        x[0] != '0',
    ensures
        digits_value(x) >= 1,
    decreases x.len(),
{
    if x.len() == 1 {
        lemma_char_digit_roundtrip(x[0]);
    } else {
        let p = x.drop_last();
        assert(p[0] == x[0]);
        assert forall|i: int| 0 <= i < p.len() implies is_digit(#[trigger] p[i]) by {
            assert(p[i] == x[i]);
        }
        lemma_numeral_positive(p);
    }
}

/// A canonical numeral is the encoding of its own value.
proof fn lemma_canonical_numeral(x: Seq<char>)
    requires
        is_canonical_numeral(x),
    ensures
        encode_num(digits_value(x)) == x,
    decreases x.len(),
{
    let v = digits_value(x);
    lemma_char_digit_roundtrip(x.last());
    if x.len() == 1 {
        assert(x.drop_last() =~= Seq::<char>::empty());
        assert(digits_value(x.drop_last()) == 0);
        assert(v == digit_value(x[0]));
        assert(encode_num(v) =~= x);
    } else {
        let p = x.drop_last();
        assert(p[0] == x[0]);
        assert forall|i: int| 0 <= i < p.len() implies is_digit(#[trigger] p[i]) by {
            assert(p[i] == x[i]);
        }
        lemma_numeral_positive(p);
        lemma_canonical_numeral(p);
        let d = digit_value(x.last());
        let pv = digits_value(p);
        assert(v == pv * 10 + d);
        assert(v / 10 == pv && v % 10 == d) by (nonlinear_arith)
            requires
                v == pv * 10 + d,
                d < 10,
        ;
        assert(encode_num(v) == encode_num(pv).push(digit_char(d)));
        assert(p.push(x.last()) =~= x);
    }
}

/// The value of a prefix of a numeral is at most the value of the whole numeral.
proof fn lemma_prefix_value(x: Seq<char>, k: int)
    requires
        0 <= k <= x.len(),
    ensures
        digits_value(x.subrange(0, k)) <= digits_value(x),
    decreases x.len(),
{
    if k < x.len() {
        let p = x.drop_last();
        lemma_prefix_value(p, k);
        assert(p.subrange(0, k) =~= x.subrange(0, k));
    } else {
        assert(x.subrange(0, k) =~= x);
    }
}

// ----- String literals -----

/// The lowercase hexadecimal digit that writes `d`, for `d < 16`.
pub open spec fn hex_char(d: nat) -> char {
    if d < 10 {
        ((d + 48) as u8) as char
    } else {
        ((d + 87) as u8) as char
    }
}

/// Whether `c` is a lowercase hexadecimal digit.
pub open spec fn is_hex(c: char) -> bool {
    ('0' <= c && c <= '9') || ('a' <= c && c <= 'f')
}

/// The value of a lowercase hexadecimal digit.
pub open spec fn hex_value(c: char) -> nat {
    if c <= '9' {
        ((c as u32) - 48) as nat
    } else {
        ((c as u32) - 87) as nat
    }
}

/// Whether `c` is a control character, which a JSON string must escape.
pub open spec fn is_control(c: char) -> bool {
    (c as u32) < 0x20
}

/// How one character is written inside a string literal: quote and backslash behind a
/// backslash, control characters as `\u00XX`, everything else as itself.
pub open spec fn escape_char(c: char) -> Seq<char> {
    if c == '"' {
        seq!['\\', '"']
    } else if c == '\\' {
        seq!['\\', '\\']
    } else if is_control(c) {
        seq!['\\', 'u', '0', '0', hex_char((c as u32 / 16) as nat), hex_char((c as u32 % 16) as nat)]
    } else {
        seq![c]
    }
}

/// The escaped characters of `s`, without the surrounding quotes.
pub open spec fn encode_body(s: Seq<char>) -> Seq<char>
    decreases s.len(),
{
    if s.len() == 0 {
        Seq::empty()
    } else {
        escape_char(s[0]) + encode_body(s.drop_first())
    }
}

/// The string literal of `s`.
pub open spec fn encode_str(s: Seq<char>) -> Seq<char> {
    seq!['"'] + encode_body(s) + seq!['"']
}

/// The control character written as `\u00` followed by the digits `hi` and `lo`.
pub open spec fn control_char(hi: char, lo: char) -> char {
    ((hex_value(hi) * 16 + hex_value(lo)) as u32) as char
}

/// `rest` with `c` in front, where `rest` was decoded.
pub open spec fn prepend(c: char, rest: Option<Seq<char>>) -> Option<Seq<char>> {
    match rest {
        Some(r) => Some(seq![c] + r),
        None => None,
    }
}

/// The characters that the escaped text `x` stands for, or `None` where `x` is not in
/// canonical escaped form.
pub open spec fn decode_body(x: Seq<char>) -> Option<Seq<char>>
    decreases x.len(),
{
    if x.len() == 0 {
        Some(Seq::empty())
    } else if x[0] == '\\' {
        if x.len() >= 2 && x[1] == '"' {
            prepend('"', decode_body(x.subrange(2, x.len() as int)))
        } else if x.len() >= 2 && x[1] == '\\' {
            prepend('\\', decode_body(x.subrange(2, x.len() as int)))
        } else if x.len() >= 6 && x[1] == 'u' && x[2] == '0' && x[3] == '0' && (x[4] == '0'
            || x[4] == '1') && is_hex(x[5]) {
            prepend(control_char(x[4], x[5]), decode_body(x.subrange(6, x.len() as int)))
        } else {
            None
        }
    } else if x[0] == '"' || is_control(x[0]) {
        None
    } else {
        prepend(x[0], decode_body(x.subrange(1, x.len() as int)))
    }
}

proof fn lemma_hex_roundtrip(d: nat)
    requires
        d < 16,
    ensures
        is_hex(hex_char(d)),
        hex_value(hex_char(d)) == d,
{
}

/// Decoding the escaped form of `s` gives `s` back.
proof fn lemma_decode_encode_body(s: Seq<char>)
    ensures
        decode_body(encode_body(s)) == Some(s),
    decreases s.len(),
{
    if s.len() > 0 {
        let c = s[0];
        let rest = s.drop_first();
        let e = escape_char(c);
        let x = encode_body(s);
        lemma_decode_encode_body(rest);
        assert(x == e + encode_body(rest));
        assert(x.subrange(e.len() as int, x.len() as int) =~= encode_body(rest));
        if is_control(c) && c != '"' && c != '\\' {
            let v = c as u32;
            lemma_hex_roundtrip((v / 16) as nat);
            lemma_hex_roundtrip((v % 16) as nat);
            assert(x[4] == hex_char((v / 16) as nat));
            assert(x[5] == hex_char((v % 16) as nat));
            assert(v / 16 < 2);
            let hv = (v / 16) as nat;
            let lv = (v % 16) as nat;
            assert(hv * 16 + lv == v) by (nonlinear_arith)
                requires
                    hv == v / 16,
                    lv == v % 16,
            ;
            vstd::utf8::char_u32_cast(c, v);
            assert(control_char(x[4], x[5]) == c);
        }
        assert(seq![c] + rest =~= s);
    } else {
        assert(encode_body(s) =~= Seq::<char>::empty());
    }
}

/// Escaped text that decodes to `s` is exactly the escaped form of `s`.
proof fn lemma_encode_decode_body(x: Seq<char>, s: Seq<char>)
    requires
        decode_body(x) == Some(s),
    ensures
        encode_body(s) == x,
    decreases x.len(),
{
    if x.len() == 0 {
        assert(s =~= Seq::<char>::empty());
    } else {
        let k: int = if x[0] == '\\' {
            if x[1] == '"' || x[1] == '\\' {
                2
            } else {
                6
            }
        } else {
            1
        };
        let rest = x.subrange(k, x.len() as int);
        let t = decode_body(rest)->0;
        lemma_encode_decode_body(rest, t);
        let c = s[0];
        assert(s =~= seq![c] + t);
        assert(s.drop_first() =~= t);
        if k == 6 {
            let hv = hex_value(x[4]);
            let lv = hex_value(x[5]);
            let v = (hv * 16 + lv) as u32;
            assert(hv < 2 && lv < 16);
            assert(c as u32 == v);
            assert(v / 16 == hv && v % 16 == lv) by (nonlinear_arith)
                requires
                    v == hv * 16 + lv,
                    lv < 16,
            ;
            assert(hex_char(hv) == x[4]);
            assert(hex_char(lv) == x[5]);
        }
        assert(escape_char(c) =~= x.subrange(0, k));
        assert(x =~= x.subrange(0, k) + rest);
    }
}

/// Appending a character to `s` appends its escaped form to the escaped text.
proof fn lemma_encode_body_push(s: Seq<char>, c: char)
    ensures
        encode_body(s.push(c)) == encode_body(s) + escape_char(c),
    decreases s.len(),
{
    let t = s.push(c);
    if s.len() == 0 {
        assert(t.drop_first() =~= Seq::<char>::empty());
        assert(encode_body(t.drop_first()) =~= Seq::<char>::empty());
        assert(encode_body(s) =~= Seq::<char>::empty());
        assert(encode_body(t) =~= encode_body(s) + escape_char(c));
    } else {
        lemma_encode_body_push(s.drop_first(), c);
        assert(t.drop_first() =~= s.drop_first().push(c));
        assert(t[0] == s[0]);
        assert(encode_body(t) =~= encode_body(s) + escape_char(c));
    }
}

/// No string literal equals `c` when the text between its first and last character does
/// not decode.
proof fn lemma_not_a_literal(c: Seq<char>)
    requires
        c.len() >= 2 ==> decode_body(c.subrange(1, c.len() - 1)) is None,
    ensures
        forall|t: Seq<char>| encode_str(t) != c,
{
    assert forall|t: Seq<char>| encode_str(t) != c by {
        if encode_str(t) == c {
            assert(c.subrange(1, c.len() - 1) =~= encode_body(t));
            lemma_decode_encode_body(t);
        }
    }
}

/// `rest` with `p` in front, where `rest` was decoded.
pub open spec fn prefix_with(p: Seq<char>, rest: Option<Seq<char>>) -> Option<Seq<char>> {
    match rest {
        Some(r) => Some(p + r),
        None => None,
    }
}

proof fn lemma_prefix_with_prepend(p: Seq<char>, c: char, rest: Option<Seq<char>>)
    ensures
        prefix_with(p, prepend(c, rest)) == prefix_with(p.push(c), rest),
{
    if rest is Some {
        assert(p + (seq![c] + rest->0) =~= p.push(c) + rest->0);
    }
}

// ----- Identifiers -----

/// The JSON text of an identifier: a string literal, or the decimal digits of a number.
pub open spec fn encode_id(v: IdView) -> Seq<char> {
    match v {
        IdView::Str(s) => encode_str(s),
        IdView::Num(n) => encode_num(n as nat),
    }
}

/// Two identifiers with the same JSON text are the same identifier, so the text written
/// for an identifier reads back as that identifier, with the same variant and value.
pub proof fn lemma_id_round_trip(id: IdView, other: IdView)
    requires
        encode_id(other) == encode_id(id),
    ensures
        other == id,
{
    match (id, other) {
        (IdView::Str(a), IdView::Str(b)) => {
            assert(encode_body(a) =~= encode_str(a).subrange(1, encode_str(a).len() - 1));
            assert(encode_body(b) =~= encode_str(b).subrange(1, encode_str(b).len() - 1));
            lemma_decode_encode_body(a);
            lemma_decode_encode_body(b);
        },
        (IdView::Num(a), IdView::Num(b)) => {
            lemma_encode_num(a as nat);
            lemma_encode_num(b as nat);
        },
        (IdView::Str(a), IdView::Num(b)) => {
            lemma_encode_num(b as nat);
            assert(encode_id(id)[0] == '"');
        },
        (IdView::Num(a), IdView::Str(b)) => {
            lemma_encode_num(a as nat);
            assert(encode_id(other)[0] == '"');
        },
    }
}

// ----- Executable encoding and decoding -----

/// Relies on `str::chars`, collected into a `Vec`: the characters of `s` in order.
#[verifier::external_body]
fn chars_of(s: &str) -> (r: Vec<char>)
    ensures
        r@ == s@,
{
    s.chars().collect()
}

/// Relies on `String`'s `FromIterator<&char>`: a string of the characters of `v` in order.
#[verifier::external_body]
fn string_of(v: &Vec<char>) -> (r: String)
    ensures
        r@ == v@,
{
    v.iter().collect()
}

fn digit(d: u64) -> (r: char)
    requires
        d < 10,
    ensures
        r == digit_char(d as nat),
{
    ((d as u8) + 48) as char
}

fn hex_digit(d: u32) -> (r: char)
    requires
        d < 16,
    ensures
        r == hex_char(d as nat),
{
    if d < 10 {
        ((d as u8) + 48) as char
    } else {
        ((d as u8) + 87) as char
    }
}

fn is_hex_digit(c: char) -> (r: bool)
    ensures
        r == is_hex(c),
{
    ('0' <= c && c <= '9') || ('a' <= c && c <= 'f')
}

fn hex_digit_value(c: char) -> (r: u32)
    requires
        is_hex(c),
    ensures
        r == hex_value(c),
        r < 16,
{
    if c <= '9' {
        (c as u32) - 48
    } else {
        (c as u32) - 87
    }
}

/// Appends the escaped form of `c`.
fn push_escaped(out: &mut Vec<char>, c: char)
    ensures
        final(out)@ == old(out)@ + escape_char(c),
{
    let ghost start = out@;
    if c == '"' {
        out.push('\\');
        out.push('"');
    } else if c == '\\' {
        out.push('\\');
        out.push('\\');
    } else if (c as u32) < 0x20 {
        let v = c as u32;
        out.push('\\');
        out.push('u');
        out.push('0');
        out.push('0');
        out.push(hex_digit(v / 16));
        out.push(hex_digit(v % 16));
    } else {
        out.push(c);
    }
    assert(out@ =~= start + escape_char(c));
}

/// Appends the decimal digits of `n`.
fn push_num(out: &mut Vec<char>, n: u64)
    ensures
        final(out)@ == old(out)@ + encode_num(n as nat),
    decreases n,
{
    let ghost start = out@;
    if n >= 10 {
        push_num(out, n / 10);
    }
    out.push(digit(n % 10));
    assert(out@ =~= start + encode_num(n as nat));
}

/// Appends the string literal of `s`.
fn push_literal(out: &mut Vec<char>, s: &str)
    ensures
        final(out)@ == old(out)@ + encode_str(s@),
{
    let ghost start = out@;
    let cs = chars_of(s);
    out.push('"');
    let mut i: usize = 0;
    while i < cs.len()
        invariant
            i <= cs@.len(),
            cs@ == s@,
            out@ == start + seq!['"'] + encode_body(cs@.subrange(0, i as int)),
        decreases cs@.len() - i,
    {
        proof {
            lemma_encode_body_push(cs@.subrange(0, i as int), cs@[i as int]);
            assert(cs@.subrange(0, i as int).push(cs@[i as int]) =~= cs@.subrange(0, i + 1));
        }
        push_escaped(out, cs[i]);
        i = i + 1;
    }
    out.push('"');
    assert(cs@.subrange(0, i as int) =~= s@);
    assert(out@ =~= start + encode_str(s@));
}

/// Reads a canonical decimal numeral that fits in a `u64`.
fn decode_num(c: &Vec<char>) -> (r: Option<u64>)
    ensures
        match r {
            Some(n) => encode_num(n as nat) == c@,
            None => forall|n: u64| encode_num(n as nat) != c@,
        },
{
    let len = c.len();
    if len == 0 || (len > 1 && c[0] == '0') {
        proof {
            assert forall|n: u64| encode_num(n as nat) != c@ by {
                lemma_encode_num(n as nat);
            }
        }
        return None;
    }
    let mut acc: u64 = 0;
    let mut i: usize = 0;
    while i < len
        invariant
            i <= len,
            len == c@.len(),
            len >= 1,
            len == 1 || c@[0] != '0',
            all_digits(c@.subrange(0, i as int)),
            acc as nat == digits_value(c@.subrange(0, i as int)),
        decreases len - i,
    {
        let ch = c[i];
        if !('0' <= ch && ch <= '9') {
            proof {
                assert forall|n: u64| encode_num(n as nat) != c@ by {
                    lemma_encode_num(n as nat);
                }
            }
            return None;
        }
        let d = ((ch as u32) - 48) as u64;
        let ghost next = c@.subrange(0, i + 1);
        proof {
            assert(next.drop_last() =~= c@.subrange(0, i as int));
            assert(digits_value(next) == acc * 10 + d);
        }
        let step = match acc.checked_mul(10) {
            Some(m) => m.checked_add(d),
            None => None,
        };
        match step {
            Some(v) => {
                acc = v;
            },
            None => {
                proof {
                    assert forall|n: u64| encode_num(n as nat) != c@ by {
                        if encode_num(n as nat) == c@ {
                            lemma_encode_num(n as nat);
                            lemma_prefix_value(c@, i + 1);
                        }
                    }
                }
                return None;
            },
        }
        proof {
            assert forall|j: int| 0 <= j < next.len() implies is_digit(#[trigger] next[j]) by {
                if j < i {
                    assert(next[j] == c@.subrange(0, i as int)[j]);
                }
            }
        }
        i = i + 1;
    }
    proof {
        assert(c@.subrange(0, len as int) =~= c@);
        lemma_canonical_numeral(c@);
    }
    Some(acc)
}

/// Reads a string literal in canonical escaped form.
fn decode_literal(c: &Vec<char>) -> (r: Option<Vec<char>>)
    ensures
        match r {
            Some(t) => encode_str(t@) == c@,
            None => forall|t: Seq<char>| encode_str(t) != c@,
        },
{
    let len = c.len();
    if len < 2 || c[0] != '"' || c[len - 1] != '"' {
        proof {
            assert forall|t: Seq<char>| encode_str(t) != c@ by {
                if encode_str(t) == c@ {
                    assert(encode_str(t)[0] == '"');
                    assert(encode_str(t)[encode_str(t).len() - 1] == '"');
                }
            }
        }
        return None;
    }
    let e = len - 1;
    let ghost body = c@.subrange(1, e as int);
    let mut out: Vec<char> = Vec::new();
    let mut i: usize = 1;
    proof {
        assert(out@ + body =~= body);
        assert(prefix_with(out@, decode_body(c@.subrange(i as int, e as int))) == decode_body(body)) by {
            if decode_body(body) is Some {
                assert(out@ + decode_body(body)->0 =~= decode_body(body)->0);
            }
        }
    }
    while i < e
        invariant
            1 <= i <= e,
            e == c@.len() - 1,
            body == c@.subrange(1, e as int),
            decode_body(body) == prefix_with(out@, decode_body(c@.subrange(i as int, e as int))),
        decreases e - i,
    {
        let ghost x = c@.subrange(i as int, e as int);
        let ghost before = out@;
        let ch = c[i];
        assert(x[0] == ch);
        if ch == '\\' {
            if i + 1 < e && c[i + 1] == '"' {
                proof {
                    assert(x[1] == c@[i + 1]);
                    assert(x.subrange(2, x.len() as int) =~= c@.subrange(i + 2, e as int));
                    lemma_prefix_with_prepend(before, '"', decode_body(c@.subrange(i + 2, e as int)));
                }
                out.push('"');
                i = i + 2;
            } else if i + 1 < e && c[i + 1] == '\\' {
                proof {
                    assert(x[1] == c@[i + 1]);
                    assert(x.subrange(2, x.len() as int) =~= c@.subrange(i + 2, e as int));
                    lemma_prefix_with_prepend(before, '\\', decode_body(c@.subrange(i + 2, e as int)));
                }
                out.push('\\');
                i = i + 2;
            } else if e - i > 5 && c[i + 1] == 'u' && c[i + 2] == '0' && c[i + 3] == '0' && (c[i
                + 4] == '0' || c[i + 4] == '1') && is_hex_digit(c[i + 5]) {
                let v = hex_digit_value(c[i + 4]) * 16 + hex_digit_value(c[i + 5]);
                let decoded = (v as u8) as char;
                proof {
                    assert(x[1] == c@[i + 1]);
                    assert(x[2] == c@[i + 2]);
                    assert(x[3] == c@[i + 3]);
                    assert(x[4] == c@[i + 4]);
                    assert(x[5] == c@[i + 5]);
                    vstd::utf8::char_u32_cast(decoded, v);
                    assert(decoded == control_char(x[4], x[5]));
                    assert(x.subrange(6, x.len() as int) =~= c@.subrange(i + 6, e as int));
                    lemma_prefix_with_prepend(before, decoded, decode_body(c@.subrange(i + 6, e as int)));
                }
                out.push(decoded);
                i = i + 6;
            } else {
                proof {
                    if i + 1 < e {
                        assert(x[1] == c@[i + 1]);
                    }
                    if i + 5 < e {
                        assert(x[1] == c@[i + 1]);
                        assert(x[2] == c@[i + 2]);
                        assert(x[3] == c@[i + 3]);
                        assert(x[4] == c@[i + 4]);
                        assert(x[5] == c@[i + 5]);
                    }
                    assert(decode_body(x) is None);
                    lemma_not_a_literal(c@);
                }
                return None;
            }
        } else if ch == '"' || (ch as u32) < 0x20 {
            proof {
                lemma_not_a_literal(c@);
            }
            return None;
        } else {
            proof {
                assert(x.subrange(1, x.len() as int) =~= c@.subrange(i + 1, e as int));
                lemma_prefix_with_prepend(before, ch, decode_body(c@.subrange(i + 1, e as int)));
            }
            out.push(ch);
            i = i + 1;
        }
    }
    proof {
        assert(c@.subrange(i as int, e as int) =~= Seq::<char>::empty());
        assert(out@ + Seq::<char>::empty() =~= out@);
        lemma_encode_decode_body(body, out@);
        assert(c@ =~= seq!['"'] + body + seq!['"']);
    }
    Some(out)
}

impl Id {
    /// The JSON text of this identifier: a string literal with quote, backslash and
    /// control characters escaped, or the decimal digits of the number.
    pub fn to_json(&self) -> (r: String)
        ensures
            r@ == encode_id(self@),
    {
        let mut out: Vec<char> = Vec::new();
        match self {
            Id::String(s) => push_literal(&mut out, s.as_str()),
            Id::Number(n) => push_num(&mut out, *n),
        }
        assert(out@ =~= encode_id(self@));
        string_of(&out)
    }

    /// Reads an identifier from its JSON text; `None` where the text is the JSON text of
    /// no identifier.
    pub fn from_json(s: &str) -> (r: Option<Id>)
        ensures
            match r {
                Some(id) => encode_id(id@) == s@,
                None => forall|v: IdView| encode_id(v) != s@,
            },
    {
        let c = chars_of(s);
        if c.len() > 0 && c[0] == '"' {
            match decode_literal(&c) {
                Some(t) => Some(Id::String(string_of(&t))),
                None => {
                    proof {
                        assert forall|v: IdView| encode_id(v) != s@ by {
                            if let IdView::Num(n) = v {
                                lemma_encode_num(n as nat);
                                lemma_digit_roundtrip(0);
                            }
                        }
                    }
                    None
                },
            }
        } else {
            match decode_num(&c) {
                Some(n) => Some(Id::Number(n)),
                None => {
                    proof {
                        assert forall|v: IdView| encode_id(v) != s@ by {
                            if let IdView::Str(t) = v {
                                assert(encode_str(t)[0] == '"');
                            }
                        }
                    }
                    None
                },
            }
        }
    }
}

} // verus!
