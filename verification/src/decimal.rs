//! Decimal text and the integers it denotes.
//!
//! Log records carry their numbers as text. The grammar accepted here is an
//! optional sign followed by one or more ASCII digits: `+` is accepted
//! everywhere, `-` only where a signed value is read. Nothing else may
//! surround the digits.

use vstd::prelude::*;
use vstd::string::StringExecFns;

verus! {

/// Whether `c` is one of the ten decimal digits.
pub open spec fn is_digit(c: char) -> bool {
    '0' <= c && c <= '9'
}

/// The value of the digit `c`.
pub open spec fn digit_value(c: char) -> nat
    recommends
        is_digit(c),
{
    (c as nat - '0' as nat) as nat
}

/// Whether every character of `s` is a digit.
pub open spec fn all_digits(s: Seq<char>) -> bool {
    forall|i: int| 0 <= i < s.len() ==> is_digit(#[trigger] s[i])
}

/// The number that the digits `s` write, most significant digit first.
pub open spec fn digits_value(s: Seq<char>) -> nat
    decreases s.len(),
{
    if s.len() == 0 {
        0
    } else {
        digits_value(s.drop_last()) * 10 + digit_value(s.last())
    }
}

/// The digits of `s` once a leading `+` is taken off.
pub open spec fn unsigned_body(s: Seq<char>) -> Seq<char> {
    if s.len() > 0 && s[0] == '+' {
        s.drop_first()
    } else {
        s
    }
}

/// The natural number that `s` denotes: an optional `+`, then at least one
/// digit and nothing else.
pub open spec fn unsigned_value(s: Seq<char>) -> Option<nat> {
    let body = unsigned_body(s);
    if body.len() > 0 && all_digits(body) {
        Some(digits_value(body))
    } else {
        None
    }
}

/// The integer that `s` denotes: as [`unsigned_value`], or a `-` followed by
/// at least one digit and nothing else.
pub open spec fn signed_value(s: Seq<char>) -> Option<int> {
    if s.len() > 0 && s[0] == '-' {
        let body = s.drop_first();
        if body.len() > 0 && all_digits(body) {
            Some(-(digits_value(body) as int))
        } else {
            None
        }
    } else {
        match unsigned_value(s) {
            Some(v) => Some(v as int),
            None => None,
        }
    }
}

/// `unsigned_value`, kept only where it does not exceed `max`.
pub open spec fn unsigned_within(s: Seq<char>, max: nat) -> Option<nat> {
    match unsigned_value(s) {
        Some(v) => if v <= max {
            Some(v)
        } else {
            None
        },
        None => None,
    }
}

/// `signed_value`, kept only where it lies in `min ..= max`.
pub open spec fn signed_within(s: Seq<char>, min: int, max: int) -> Option<int> {
    match signed_value(s) {
        Some(v) => if min <= v <= max {
            Some(v)
        } else {
            None
        },
        None => None,
    }
}

/// The `u8` that `s` denotes, if it denotes one.
pub open spec fn parsed_u8(s: Seq<char>) -> Option<u8> {
    match unsigned_within(s, u8::MAX as nat) {
        Some(v) => Some(v as u8),
        None => None,
    }
}

/// The `u16` that `s` denotes, if it denotes one.
pub open spec fn parsed_u16(s: Seq<char>) -> Option<u16> {
    match unsigned_within(s, u16::MAX as nat) {
        Some(v) => Some(v as u16),
        None => None,
    }
}

/// The `u64` that `s` denotes, if it denotes one.
pub open spec fn parsed_u64(s: Seq<char>) -> Option<u64> {
    match unsigned_within(s, u64::MAX as nat) {
        Some(v) => Some(v as u64),
        None => None,
    }
}

/// The `i64` that `s` denotes, if it denotes one.
pub open spec fn parsed_i64(s: Seq<char>) -> Option<i64> {
    match signed_within(s, i64::MIN as int, i64::MAX as int) {
        Some(v) => Some(v as i64),
        None => None,
    }
}

/// What a scan of decimal text has seen so far.
struct Scan {
    /// A sign was read as the first character.
    signed: bool,
    /// That sign was `-`.
    negative: bool,
    /// A character that cannot stand where it stood was read.
    broken: bool,
    /// The digits read so far denote more than the limit.
    over: bool,
    /// At least one character was read behind the sign.
    filled: bool,
    /// The value of the digits read so far, while it is within the limit.
    value: u64,
}

/// The part of `s` behind the sign that a scan of `s` has noted.
spec fn scanned_body(s: Seq<char>, signed: bool) -> Seq<char> {
    if signed {
        s.drop_first()
    } else {
        s
    }
}

/// The state of a scan that has read `s` in full, with `max` as the limit of
/// the magnitude and a `-` accepted only under `allow_minus`.
spec fn scan_of(scan: Scan, s: Seq<char>, max: u64, allow_minus: bool) -> bool {
    let body = scanned_body(s, scan.signed);
    &&& scan.signed <==> s.len() > 0 && (s[0] == '+' || (allow_minus && s[0] == '-'))
    &&& scan.negative <==> s.len() > 0 && allow_minus && s[0] == '-'
    &&& scan.broken <==> !all_digits(body)
    &&& scan.filled <==> body.len() > 0
    &&& !scan.broken && !scan.over ==> scan.value == digits_value(body)
    &&& !scan.broken && scan.over ==> digits_value(body) > max
}

/// Reads `text` in one pass.
fn scan(text: &str, max: u64, allow_minus: bool) -> (r: Scan)
    requires
        max >= 9,
    ensures
        scan_of(r, text@, max, allow_minus),
        !r.broken && !r.over ==> r.value <= max,
{
    let mut st = Scan {
        signed: false,
        negative: false,
        broken: false,
        over: false,
        filled: false,
        value: 0,
    };
    let mut first = true;
    for c in it: text.chars()
        invariant
            max >= 9,
            it.seq() == text@,
            first <==> it.index() == 0,
            scan_of(st, text@.take(it.index() as int), max, allow_minus),
            !st.broken && !st.over ==> st.value <= max,
    {
        let ghost seen = text@.take(it.index() as int);
        let ghost next = text@.take(it.index() + 1);
        proof {
            assert(next == seen.push(c));
            assert(next.drop_last() == seen);
        }
        if first && (c == '+' || (allow_minus && c == '-')) {
            st.signed = true;
            st.negative = c == '-';
            proof {
                assert(scanned_body(next, true) == Seq::<char>::empty());
            }
        } else if '0' <= c && c <= '9' {
            let d: u64 = (c as u32 - '0' as u32) as u64;
            proof {
                let body = scanned_body(seen, st.signed);
                let grown = scanned_body(next, st.signed);
                assert(grown == body.push(c));
                assert(grown.drop_last() == body);
                assert(d == digit_value(c));
                assert(all_digits(grown) <==> all_digits(body)) by {
                    if all_digits(body) {
                        assert forall|i: int| 0 <= i < grown.len() implies is_digit(
                            #[trigger] grown[i],
                        ) by {
                            if i < body.len() {
                                assert(grown[i] == body[i]);
                            }
                        }
                    } else {
                        let i = choose|i: int| 0 <= i < body.len() && !is_digit(#[trigger] body[i]);
                        assert(grown[i] == body[i]);
                    }
                }
            }
            st.filled = true;
            if !st.broken {
                if !st.over {
                    if st.value > (max - d) / 10 {
                        st.over = true;
                    } else {
                        st.value = st.value * 10 + d;
                    }
                }
            }
        } else {
            st.broken = true;
            st.filled = true;
            proof {
                let grown = scanned_body(next, st.signed);
                assert(grown.last() == c);
                assert(!is_digit(grown[grown.len() - 1]));
            }
        }
        first = false;
    }
    proof {
        assert(text@.take(text@.len() as int) == text@);
    }
    st
}

/// Reads an unsigned decimal number of at most `max`.
fn parse_unsigned(text: &str, max: u64) -> (r: Option<u64>)
    requires
        max >= 9,
    ensures
        match r {
            Some(v) => unsigned_within(text@, max as nat) == Some(v as nat),
            None => unsigned_within(text@, max as nat) is None,
        },
{
    let st = scan(text, max, false);
    if st.broken || st.over || !st.filled {
        None
    } else {
        Some(st.value)
    }
}

/// Reads a `u8` from decimal text.
pub fn parse_u8(text: &str) -> (r: Option<u8>)
    ensures
        r == parsed_u8(text@),
{
    match parse_unsigned(text, 0xff) {
        Some(v) => Some(v as u8),
        None => None,
    }
}

/// Reads a `u16` from decimal text.
pub fn parse_u16(text: &str) -> (r: Option<u16>)
    ensures
        r == parsed_u16(text@),
{
    match parse_unsigned(text, 0xffff) {
        Some(v) => Some(v as u16),
        None => None,
    }
}

/// Reads a `u64` from decimal text.
pub fn parse_u64(text: &str) -> (r: Option<u64>)
    ensures
        r == parsed_u64(text@),
{
    parse_unsigned(text, 0xffff_ffff_ffff_ffff)
}

/// Reads an `i64` from decimal text.
pub fn parse_i64(text: &str) -> (r: Option<i64>)
    ensures
        r == parsed_i64(text@),
{
    let st = scan(text, 0x8000_0000_0000_0000, true);
    if st.broken || st.over || !st.filled {
        None
    } else if st.negative {
        if st.value == 0x8000_0000_0000_0000 {
            Some(i64::MIN)
        } else {
            Some(-(st.value as i64))
        }
    } else if st.value > 0x7fff_ffff_ffff_ffff {
        None
    } else {
        Some(st.value as i64)
    }
}

/// The character that writes the digit `d`.
pub open spec fn digit_char(d: nat) -> char
    recommends
        d < 10,
{
    seq!['0', '1', '2', '3', '4', '5', '6', '7', '8', '9'][d as int]
}

/// The shortest decimal text of `n`: no sign, no leading zero but for zero
/// itself.
pub open spec fn decimal_text(n: nat) -> Seq<char>
    decreases n,
{
    if n < 10 {
        seq![digit_char(n)]
    } else {
        decimal_text(n / 10).push(digit_char(n % 10))
    }
}

/// The shortest decimal text of `v`, with a `-` in front where `v` is
/// negative.
pub open spec fn signed_text(v: int) -> Seq<char> {
    if v < 0 {
        seq!['-'] + decimal_text((-v) as nat)
    } else {
        decimal_text(v as nat)
    }
}

/// The text of a number is made of digits, is not empty, and writes that
/// number.
pub proof fn lemma_decimal_text(n: nat)
    ensures
        decimal_text(n).len() > 0,
        all_digits(decimal_text(n)),
        digits_value(decimal_text(n)) == n,
    decreases n,
{
    if n < 10 {
        let t = decimal_text(n);
        assert(t.drop_last() == Seq::<char>::empty());
        assert(digits_value(t.drop_last()) == 0);
    } else {
        lemma_decimal_text(n / 10);
        let shorter = decimal_text(n / 10);
        let t = decimal_text(n);
        assert(t.drop_last() == shorter);
        assert(is_digit(digit_char(n % 10)));
        assert forall|i: int| 0 <= i < t.len() implies is_digit(#[trigger] t[i]) by {
            if i < shorter.len() {
                assert(t[i] == shorter[i]);
            }
        }
    }
}

/// Reading the text of a natural number gives that number back.
pub proof fn lemma_unsigned_round_trip(n: nat)
    ensures
        unsigned_value(decimal_text(n)) == Some(n),
{
    lemma_decimal_text(n);
    let t = decimal_text(n);
    assert(is_digit(t[0]));
}

/// Reading the text of an integer gives that integer back.
pub proof fn lemma_signed_round_trip(v: int)
    ensures
        signed_value(signed_text(v)) == Some(v),
{
    if v < 0 {
        let n = (-v) as nat;
        lemma_decimal_text(n);
        let t = signed_text(v);
        assert(t.drop_first() == decimal_text(n));
    } else {
        lemma_unsigned_round_trip(v as nat);
        let t = decimal_text(v as nat);
        lemma_decimal_text(v as nat);
        assert(is_digit(t[0]));
    }
}

/// The one-character text of the digit `d`.
fn digit_str(d: u64) -> (r: &'static str)
    requires
        d < 10,
    ensures
        r@ == seq![digit_char(d as nat)],
{
    proof {
        reveal_strlit("0");
        reveal_strlit("1");
        reveal_strlit("2");
        reveal_strlit("3");
        reveal_strlit("4");
        reveal_strlit("5");
        reveal_strlit("6");
        reveal_strlit("7");
        reveal_strlit("8");
        reveal_strlit("9");
    }
    let r = if d == 0 {
        "0"
    } else if d == 1 {
        "1"
    } else if d == 2 {
        "2"
    } else if d == 3 {
        "3"
    } else if d == 4 {
        "4"
    } else if d == 5 {
        "5"
    } else if d == 6 {
        "6"
    } else if d == 7 {
        "7"
    } else if d == 8 {
        "8"
    } else {
        "9"
    };
    assert(r@ =~= seq![digit_char(d as nat)]);
    r
}

/// Writes `n` in decimal.
pub fn render_u64(n: u64) -> (r: String)
    ensures
        r@ == decimal_text(n as nat),
    decreases n,
{
    if n < 10 {
        String::from_str(digit_str(n))
    } else {
        let mut r = render_u64(n / 10);
        r.append(digit_str(n % 10));
        assert(r@ =~= decimal_text(n as nat));
        r
    }
}

/// Writes `v` in decimal.
pub fn render_i64(v: i64) -> (r: String)
    ensures
        r@ == signed_text(v as int),
{
    if v < 0 {
        let magnitude: u64 = if v == i64::MIN {
            0x8000_0000_0000_0000
        } else {
            (-v) as u64
        };
        proof {
            reveal_strlit("-");
        }
        let mut r = String::from_str("-");
        let digits = render_u64(magnitude);
        r.append(digits.as_str());
        assert(r@ =~= signed_text(v as int));
        r
    } else {
        render_u64(v as u64)
    }
}

} // verus!
