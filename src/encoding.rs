//! Percent-encoding of query components, with spaces written as `%20`.

use crate::text::{chars_of, push_char};
use vstd::prelude::*;
use vstd::utf8::encode_utf8;

verus! {

/// Bytes that form encoding leaves as they are.
pub open spec fn is_unreserved(b: u8) -> bool {
    (48 <= b <= 57) || (65 <= b <= 90) || (97 <= b <= 122) || b == 42 || b == 45 || b == 46
        || b == 95
}

/// The upper-case hexadecimal digit of `n`, for `n < 16`.
pub open spec fn hex_digit(n: u8) -> char {
    seq!['0', '1', '2', '3', '4', '5', '6', '7', '8', '9', 'A', 'B', 'C', 'D', 'E', 'F'][n as int]
}

/// `%` followed by the two hexadecimal digits of `b`.
pub open spec fn escaped(b: u8) -> Seq<char> {
    seq!['%', hex_digit(b / 16), hex_digit(b % 16)]
}

/// One byte in `application/x-www-form-urlencoded` form: a space is `+`.
pub open spec fn form_byte(b: u8) -> Seq<char> {
    if is_unreserved(b) {
        seq![b as char]
    } else if b == 32 {
        seq!['+']
    } else {
        escaped(b)
    }
}

/// Bytes in `application/x-www-form-urlencoded` form.
pub open spec fn form_urlencoded(bs: Seq<u8>) -> Seq<char>
    decreases bs.len(),
{
    if bs.len() == 0 {
        Seq::empty()
    } else {
        form_urlencoded(bs.drop_last()) + form_byte(bs.last())
    }
}

/// One byte percent-encoded as this library sends it: a space is `%20`.
pub open spec fn percent_byte(b: u8) -> Seq<char> {
    if is_unreserved(b) {
        seq![b as char]
    } else {
        escaped(b)
    }
}

/// Bytes percent-encoded as this library sends them.
pub open spec fn percent_encoded(bs: Seq<u8>) -> Seq<char>
    decreases bs.len(),
{
    if bs.len() == 0 {
        Seq::empty()
    } else {
        percent_encoded(bs.drop_last()) + percent_byte(bs.last())
    }
}

/// The UTF-8 bytes of `s`, percent-encoded.
pub open spec fn encoded_text(s: Seq<char>) -> Seq<char> {
    percent_encoded(encode_utf8(s))
}

/// `cs` with every `+` written as `%20`.
pub open spec fn plus_as_pct20(cs: Seq<char>) -> Seq<char>
    decreases cs.len(),
{
    if cs.len() == 0 {
        Seq::empty()
    } else if cs.last() == '+' {
        plus_as_pct20(cs.drop_last()) + seq!['%', '2', '0']
    } else {
        plus_as_pct20(cs.drop_last()).push(cs.last())
    }
}

/// Relies on `url::form_urlencoded::byte_serialize`: the bytes of `s` in
/// form-urlencoded form, an unreserved byte kept, a space as `+`, any other
/// byte as `%` and two upper-case hexadecimal digits.
#[verifier::external_body]
fn form_encode(s: &str) -> (r: String)
    ensures
        r@ == form_urlencoded(encode_utf8(s@)),
{
    url::form_urlencoded::byte_serialize(s.as_bytes()).collect()
}

proof fn lemma_plus_as_pct20_concat(a: Seq<char>, b: Seq<char>)
    ensures
        plus_as_pct20(a + b) == plus_as_pct20(a) + plus_as_pct20(b),
    decreases b.len(),
{
    if b.len() == 0 {
        assert(a + b =~= a);
        assert(plus_as_pct20(a) + plus_as_pct20(b) =~= plus_as_pct20(a));
    } else {
        assert((a + b).drop_last() =~= a + b.drop_last());
        assert((a + b).last() == b.last());
        lemma_plus_as_pct20_concat(a, b.drop_last());
        if b.last() == '+' {
            assert(plus_as_pct20(a + b) =~= plus_as_pct20(a) + plus_as_pct20(b));
        } else {
            assert(plus_as_pct20(a + b) =~= plus_as_pct20(a) + plus_as_pct20(b));
        }
    }
}

proof fn lemma_plus_as_pct20_byte(b: u8)
    ensures
        plus_as_pct20(form_byte(b)) == percent_byte(b),
{
    let one = form_byte(b);
    reveal_with_fuel(plus_as_pct20, 4);
    if is_unreserved(b) {
        assert(one.drop_last() =~= Seq::<char>::empty());
        assert((b as char) != '+');
        assert(plus_as_pct20(one) =~= percent_byte(b));
    } else if b == 32 {
        assert(one.drop_last() =~= Seq::<char>::empty());
        assert(plus_as_pct20(one) =~= percent_byte(b));
    } else {
        let hi = hex_digit(b / 16);
        let lo = hex_digit(b % 16);
        assert(hi != '+' && lo != '+');
        assert(one.drop_last() =~= seq!['%', hi]);
        assert(one.drop_last().drop_last() =~= seq!['%']);
        assert(one.drop_last().drop_last().drop_last() =~= Seq::<char>::empty());
        assert(plus_as_pct20(one) =~= percent_byte(b));
    }
}

/// Writing each `+` of the form encoding as `%20` gives the percent
/// encoding.
pub proof fn lemma_form_to_percent(bs: Seq<u8>)
    ensures
        plus_as_pct20(form_urlencoded(bs)) == percent_encoded(bs),
    decreases bs.len(),
{
    if bs.len() > 0 {
        lemma_form_to_percent(bs.drop_last());
        lemma_plus_as_pct20_concat(form_urlencoded(bs.drop_last()), form_byte(bs.last()));
        lemma_plus_as_pct20_byte(bs.last());
    }
}

/// Percent-encodes the UTF-8 bytes of `s`: unreserved bytes stay, a space
/// becomes `%20`, every other byte `%` and two hexadecimal digits.
pub fn percent_encode(s: &str) -> (r: String)
    ensures
        r@ == encoded_text(s@),
{
    let form = form_encode(s);
    let cs = chars_of(form.as_str());
    let n = cs.len();
    let mut out = String::new();
    let mut i: usize = 0;
    assert(cs@.subrange(0, 0) =~= Seq::<char>::empty());
    while i < n
        invariant
            0 <= i <= n == cs@.len(),
            out@ == plus_as_pct20(cs@.subrange(0, i as int)),
        decreases n - i,
    {
        assert(cs@.subrange(0, i + 1).drop_last() =~= cs@.subrange(0, i as int));
        if cs[i] == '+' {
            push_char(&mut out, '%');
            push_char(&mut out, '2');
            push_char(&mut out, '0');
            assert(out@ =~= plus_as_pct20(cs@.subrange(0, i + 1)));
        } else {
            push_char(&mut out, cs[i]);
            assert(out@ =~= plus_as_pct20(cs@.subrange(0, i + 1)));
        }
        i = i + 1;
    }
    assert(cs@.subrange(0, n as int) =~= cs@);
    proof {
        lemma_form_to_percent(encode_utf8(s@));
    }
    out
}

proof fn lemma_hex_digit_plain(n: u8)
    requires
        n < 16,
    ensures
        hex_digit(n) != ' ' && hex_digit(n) != '+' && hex_digit(n) != '%',
{
    let digits = seq!['0', '1', '2', '3', '4', '5', '6', '7', '8', '9', 'A', 'B', 'C', 'D', 'E', 'F'];
    assert(forall|i: int| 0 <= i < 16 ==> digits[i] != ' ' && digits[i] != '+' && digits[i] != '%');
}

/// Percent-encoded text holds no space and no `+`: a space byte is written
/// `%20`.
pub proof fn lemma_spaces_as_pct20(bs: Seq<u8>)
    ensures
        percent_byte(32) == seq!['%', '2', '0'],
        forall|i: int|
            0 <= i < percent_encoded(bs).len() ==> percent_encoded(bs)[i] != ' '
                && percent_encoded(bs)[i] != '+',
    decreases bs.len(),
{
    assert(percent_byte(32) =~= seq!['%', '2', '0']);
    if bs.len() > 0 {
        lemma_spaces_as_pct20(bs.drop_last());
        let b = bs.last();
        let tail = percent_byte(b);
        if !is_unreserved(b) {
            lemma_hex_digit_plain(b / 16);
            lemma_hex_digit_plain(b % 16);
        }
        assert(forall|i: int| 0 <= i < tail.len() ==> tail[i] != ' ' && tail[i] != '+');
        let head = percent_encoded(bs.drop_last());
        let all = percent_encoded(bs);
        assert(all == head + tail);
        assert forall|i: int| 0 <= i < all.len() implies all[i] != ' ' && all[i] != '+' by {
            if i < head.len() {
                assert(all[i] == head[i]);
            } else {
                assert(all[i] == tail[i - head.len()]);
            }
        }
    }
}

/// The value of an upper-case hexadecimal digit.
pub open spec fn hex_value(c: char) -> u8 {
    if c == '0' { 0 } else if c == '1' { 1 } else if c == '2' { 2 } else if c == '3' { 3 }
    else if c == '4' { 4 } else if c == '5' { 5 } else if c == '6' { 6 } else if c == '7' { 7 }
    else if c == '8' { 8 } else if c == '9' { 9 } else if c == 'A' { 10 } else if c == 'B' { 11 }
    else if c == 'C' { 12 } else if c == 'D' { 13 } else if c == 'E' { 14 } else { 15 }
}

/// Percent-decoding: `%` and two hexadecimal digits stand for one byte, any
/// other character for the byte of its code.
pub open spec fn percent_decoded(cs: Seq<char>) -> Seq<u8>
    decreases cs.len(),
{
    if cs.len() == 0 {
        Seq::empty()
    } else if cs[0] == '%' && cs.len() >= 3 {
        seq![(16 * hex_value(cs[1]) + hex_value(cs[2])) as u8] + percent_decoded(
            cs.subrange(3, cs.len() as int),
        )
    } else {
        seq![cs[0] as u8] + percent_decoded(cs.subrange(1, cs.len() as int))
    }
}

proof fn lemma_hex_round_trip(n: u8)
    requires
        n < 16,
    ensures
        hex_value(hex_digit(n)) == n,
{
    let digits = seq!['0', '1', '2', '3', '4', '5', '6', '7', '8', '9', 'A', 'B', 'C', 'D', 'E', 'F'];
    assert(hex_digit(n) == digits[n as int]);
}

proof fn lemma_percent_encoded_concat(a: Seq<u8>, b: Seq<u8>)
    ensures
        percent_encoded(a + b) == percent_encoded(a) + percent_encoded(b),
    decreases b.len(),
{
    if b.len() == 0 {
        assert(a + b =~= a);
        assert(percent_encoded(a) + percent_encoded(b) =~= percent_encoded(a));
    } else {
        assert((a + b).drop_last() =~= a + b.drop_last());
        assert((a + b).last() == b.last());
        lemma_percent_encoded_concat(a, b.drop_last());
        assert(percent_encoded(a + b) =~= percent_encoded(a) + percent_encoded(b));
    }
}

proof fn lemma_decode_one(b: u8, rest: Seq<char>)
    ensures
        percent_decoded(percent_byte(b) + rest) == seq![b] + percent_decoded(rest),
{
    let cs = percent_byte(b) + rest;
    if is_unreserved(b) {
        assert(cs[0] == b as char);
        assert((b as char) != '%');
        assert(cs.subrange(1, cs.len() as int) =~= rest);
        assert((b as char) as u8 == b);
    } else {
        let hi = b / 16;
        let lo = b % 16;
        lemma_hex_round_trip(hi);
        lemma_hex_round_trip(lo);
        assert(cs[0] == '%' && cs[1] == hex_digit(hi) && cs[2] == hex_digit(lo));
        assert(cs.subrange(3, cs.len() as int) =~= rest);
        assert(16 * hi + lo == b);
    }
}

/// Percent-decoding gives back the bytes that were encoded: no information
/// is lost, and each byte comes back where it stood.
pub proof fn lemma_percent_round_trip(bs: Seq<u8>)
    ensures
        percent_decoded(percent_encoded(bs)) == bs,
    decreases bs.len(),
{
    if bs.len() > 0 {
        let first = seq![bs[0]];
        let rest = bs.drop_first();
        assert(bs =~= first + rest);
        lemma_percent_encoded_concat(first, rest);
        assert(first.drop_last() =~= Seq::<u8>::empty());
        assert(percent_encoded(first) =~= percent_byte(bs[0])) by {
            reveal_with_fuel(percent_encoded, 2);
        }
        lemma_decode_one(bs[0], percent_encoded(rest));
        lemma_percent_round_trip(rest);
        assert(seq![bs[0]] + rest =~= bs);
    }
}

} // verus!
