use vstd::prelude::*;

use crate::text::chars_of;
use crate::decimal::{
    digit_value, digits_of, digits_value, is_digit, lemma_digits_of, push_digits,
};

verus! {

/// The three characters that open and close a frame header.
pub open spec fn marker() -> Seq<char> {
    seq!['~', 'm', '~']
}

/// Length of a text in UTF-8 bytes.
pub open spec fn byte_len(s: Seq<char>) -> nat {
    vstd::utf8::encode_utf8(s).len()
}

/// `~m~<byte length>~m~<payload>`.
pub open spec fn frame_of(payload: Seq<char>) -> Seq<char> {
    marker() + digits_of(byte_len(payload)) + marker() + payload
}

/// Number of consecutive digits in `t` from position `i` on.
pub open spec fn digit_run(t: Seq<char>, i: int) -> nat
    decreases t.len() - i,
{
    if 0 <= i < t.len() && is_digit(t[i]) {
        1 + digit_run(t, i + 1)
    } else {
        0
    }
}

/// The payload of a text that is exactly one frame: a marker, a non-empty run
/// of digits, a marker, and a payload whose byte length the digits spell.
pub open spec fn frame_payload(t: Seq<char>) -> Option<Seq<char>> {
    let k = digit_run(t, 3) as int;
    let start = 6 + k;
    if t.len() >= start && t.subrange(0, 3) == marker() && k > 0 && t.subrange(3 + k, start)
        == marker() && digits_value(t.subrange(3, 3 + k)) == byte_len(t.subrange(start, t.len() as int)) {
        Some(t.subrange(start, t.len() as int))
    } else {
        None
    }
}

/// Frames a payload for the quote stream.
pub fn prepend_header(content: &str) -> (r: String)
    ensures
        r@ == frame_of(content@),
{
    let len = content.as_bytes().len();
    let mut s = String::from_str("~m~");
    push_digits(&mut s, len as u64);
    s.append("~m~");
    s.append(content);
    proof {
        reveal_strlit("~m~");
    }
    assert(s@ =~= frame_of(content@));
    s
}

proof fn lemma_digit_run(t: Seq<char>, i: int, end: int)
    requires
        0 <= i <= end < t.len(),
        forall|j: int| i <= j < end ==> is_digit(#[trigger] t[j]),
        !is_digit(t[end]),
    ensures
        digit_run(t, i) == end - i,
    decreases end - i,
{
    if i < end {
        lemma_digit_run(t, i + 1, end);
    }
}

proof fn lemma_digits_value_grows(s: Seq<char>, j: int)
    requires
        0 <= j <= s.len(),
        forall|i: int| 0 <= i < s.len() ==> is_digit(#[trigger] s[i]),
    ensures
        digits_value(s.subrange(0, j)) <= digits_value(s),
    decreases s.len() - j,
{
    if j < s.len() {
        lemma_digits_value_grows(s, j + 1);
        let p = s.subrange(0, j + 1);
        assert(p.drop_last() =~= s.subrange(0, j));
        assert(digit_value(p.last()) >= 0);
        assert(digits_value(s.subrange(0, j)) >= 0) by {
            lemma_digits_value_nonneg(s.subrange(0, j));
        }
    } else {
        assert(s.subrange(0, j) =~= s);
    }
}

proof fn lemma_digits_value_nonneg(s: Seq<char>)
    requires
        forall|i: int| 0 <= i < s.len() ==> is_digit(#[trigger] s[i]),
    ensures
        digits_value(s) >= 0,
    decreases s.len(),
{
    if s.len() > 0 {
        lemma_digits_value_nonneg(s.drop_last());
    }
}

/// Splits off the header of a text that is exactly one frame and returns the
/// payload; `None` when the text is not one well-formed frame.
pub fn decode_frame(text: &str) -> (r: Option<String>)
    ensures
        r matches Some(p) ==> frame_payload(text@) == Some(p@),
        r is None ==> frame_payload(text@) is None,
{
    let ghost t = text@;
    let cs = chars_of(text);
    let n = cs.len();
    if n < 6 {
        return None;
    }
    let c0 = cs[0];
    let c1 = cs[1];
    let c2 = cs[2];
    if !(c0 == '~' && c1 == 'm' && c2 == '~') {
        assert(t.subrange(0, 3)[0] == c0);
        assert(t.subrange(0, 3)[1] == c1);
        assert(t.subrange(0, 3)[2] == c2);
        return None;
    }
    assert(t.subrange(0, 3) =~= marker());
    let mut i: usize = 3;
    while i < n && ('0' <= cs[i] && cs[i] <= '9')
        invariant
            3 <= i <= n,
            n == t.len(),
            t == text@,
            cs@ == t,
            forall|j: int| 3 <= j < i ==> is_digit(#[trigger] t[j]),
        decreases n - i,
    {
        i = i + 1;
    }
    proof {
        if i < n {
            lemma_digit_run(t, 3, i as int);
        }
    }
    if i == 3 || n - i < 3 {
        proof {
            if i == n {
                lemma_run_at_end(t, 3);
            }
        }
        return None;
    }
    if !(cs[i] == '~' && cs[i + 1] == 'm' && cs[i + 2] == '~') {
        proof {
            let m = t.subrange(i as int, i + 3);
            assert(m[0] == t[i as int]);
            assert(m[1] == t[i + 1]);
            assert(m[2] == t[i + 2]);
        }
        return None;
    }
    assert(t.subrange(i as int, i + 3) =~= marker());
    let start = i + 3;
    let payload = text.substring_char(start, n);
    let limit = payload.as_bytes().len();
    let ghost digits = t.subrange(3, i as int);
    let mut v: usize = 0;
    let mut j: usize = 3;
    while j < i
        invariant
            3 <= j <= i,
            i + 3 <= n,
            limit == byte_len(payload@),
            payload@ == t.subrange(i + 3, n as int),
            !is_digit(t[i as int]),
            t.subrange(0, 3) == marker(),
            t.subrange(i as int, i + 3) == marker(),
            n == t.len(),
            t == text@,
            cs@ == t,
            digits == t.subrange(3, i as int),
            forall|q: int| 3 <= q < i ==> is_digit(#[trigger] t[q]),
            v <= limit,
            v == digits_value(digits.subrange(0, j - 3)),
        decreases i - j,
    {
        let c = cs[j];
        let d = (c as u32 - '0' as u32) as usize;
        let ghost next = digits.subrange(0, j + 1 - 3);
        assert(next.drop_last() =~= digits.subrange(0, j - 3));
        assert(next.last() == c);
        assert(digit_value(c) == d as int);
        assert(digits_value(next) == v * 10 + d);
        if d > limit || v > (limit - d) / 10 {
            proof {
                assert forall|q: int| 0 <= q < digits.len() implies is_digit(#[trigger] digits[q]) by {
                    assert(digits[q] == t[3 + q]);
                }
                lemma_digits_value_grows(digits, j + 1 - 3);
                if d <= limit {
                    assert(v * 10 + d > limit) by (nonlinear_arith)
                        requires v > (limit - d) / 10, d <= limit;
                }
                lemma_frame_payload_shape(t, i as int);
            }
            return None;
        }
        assert(v * 10 + d <= limit) by (nonlinear_arith)
            requires v <= (limit - d) / 10, d <= limit;
        v = v * 10 + d;
        j = j + 1;
    }
    assert(digits.subrange(0, i - 3) =~= digits);
    proof {
        lemma_frame_payload_shape(t, i as int);
    }
    if v == limit {
        Some(String::from_str(payload))
    } else {
        None
    }
}

proof fn lemma_frame_payload_shape(t: Seq<char>, i: int)
    requires
        3 < i,
        i + 3 <= t.len(),
        forall|j: int| 3 <= j < i ==> is_digit(#[trigger] t[j]),
        !is_digit(t[i]),
        t.subrange(0, 3) == marker(),
        t.subrange(i, i + 3) == marker(),
    ensures
        frame_payload(t) == (if digits_value(t.subrange(3, i)) == byte_len(t.subrange(i + 3, t.len() as int)) {
            Some(t.subrange(i + 3, t.len() as int))
        } else {
            None
        }),
{
    lemma_digit_run(t, 3, i);
}

proof fn lemma_run_at_end(t: Seq<char>, i: int)
    requires
        0 <= i <= t.len(),
    ensures
        i + digit_run(t, i) <= t.len(),
    decreases t.len() - i,
{
    if i < t.len() {
        lemma_run_at_end(t, i + 1);
    }
}

/// Decoding a framed payload gives the payload back.
pub proof fn lemma_frame_round_trip(payload: Seq<char>)
    ensures
        frame_payload(frame_of(payload)) == Some(payload),
{
    let d = digits_of(byte_len(payload));
    let t = frame_of(payload);
    let k = d.len() as int;
    lemma_digits_of(byte_len(payload));
    assert(t[3 + k] == '~');
    assert forall|j: int| 3 <= j < 3 + k implies is_digit(#[trigger] t[j]) by {
        assert(t[j] == d[j - 3]);
    }
    lemma_digit_run(t, 3, 3 + k);
    assert(t.subrange(0, 3) =~= marker());
    assert(t.subrange(3, 3 + k) =~= d);
    assert(t.subrange(3 + k, 6 + k) =~= marker());
    assert(t.subrange(6 + k, t.len() as int) =~= payload);
}

} // verus!
