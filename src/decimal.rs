use vstd::prelude::*;

verus! {

/// The decimal digit character for `d`, a value in `0..10`.
pub open spec fn digit_char(d: int) -> char {
    seq!['0', '1', '2', '3', '4', '5', '6', '7', '8', '9'][d]
}

pub open spec fn is_digit(c: char) -> bool {
    '0' <= c && c <= '9'
}

/// The value of a digit character.
pub open spec fn digit_value(c: char) -> int {
    (c as u32) as int - ('0' as u32) as int
}

/// Base-ten text of `n`, most significant digit first, no leading zeros.
pub open spec fn digits_of(n: nat) -> Seq<char>
    decreases n,
{
    if n < 10 {
        seq![digit_char(n as int)]
    } else {
        digits_of(n / 10).push(digit_char((n % 10) as int))
    }
}

/// The last `k` base-ten digits of `n`, zero-padded to exactly `k` characters.
pub open spec fn padded_digits(n: nat, k: nat) -> Seq<char>
    decreases k,
{
    if k == 0 {
        Seq::empty()
    } else {
        padded_digits(n / 10, (k - 1) as nat).push(digit_char((n % 10) as int))
    }
}

/// The number that a run of digit characters spells.
pub open spec fn digits_value(s: Seq<char>) -> int
    decreases s.len(),
{
    if s.len() == 0 {
        0
    } else {
        digits_value(s.drop_last()) * 10 + digit_value(s.last())
    }
}

pub proof fn lemma_digit_char(d: int)
    requires
        0 <= d < 10,
    ensures
        is_digit(digit_char(d)),
        digit_value(digit_char(d)) == d,
{
}

/// `digits_of` is made of digits and spells back the number it was made from.
pub proof fn lemma_digits_of(n: nat)
    ensures
        digits_of(n).len() >= 1,
        forall|i: int| 0 <= i < digits_of(n).len() ==> is_digit(#[trigger] digits_of(n)[i]),
        digits_value(digits_of(n)) == n,
    decreases n,
{
    if n < 10 {
        lemma_digit_char(n as int);
        assert(digits_of(n).drop_last() =~= Seq::<char>::empty());
        assert(digits_value(Seq::<char>::empty()) == 0);
        assert(digits_value(digits_of(n)) == digit_value(digits_of(n).last()));
    } else {
        lemma_digits_of(n / 10);
        lemma_digit_char((n % 10) as int);
        assert(digits_of(n).drop_last() =~= digits_of(n / 10));
        assert(digits_of(n).last() == digit_char((n % 10) as int));
        assert(digits_value(digits_of(n)) == digits_value(digits_of(n / 10)) * 10 + (n % 10));
        assert(forall|i: int| 0 <= i < digits_of(n).len() - 1 ==> digits_of(n)[i] == digits_of(n / 10)[i]);
    }
}

/// Appending the digits of a number to a string.
pub fn push_digits(s: &mut String, n: u64)
    ensures
        final(s)@ == old(s)@ + digits_of(n as nat),
    decreases n,
{
    if n >= 10 {
        push_digits(s, n / 10);
    }
    push_digit(s, (n % 10) as usize);
    proof {
        if n >= 10 {
            assert(digits_of(n as nat) == digits_of((n / 10) as nat).push(digit_char((n % 10) as int)));
        } else {
            assert(digits_of(n as nat) == seq![digit_char(n as int)]);
        }
    }
}

/// Appending exactly `k` digits: the last `k` digits of `n`, zero-padded.
pub fn push_padded_digits(s: &mut String, n: u64, k: u32)
    ensures
        final(s)@ == old(s)@ + padded_digits(n as nat, k as nat),
    decreases k,
{
    if k > 0 {
        push_padded_digits(s, n / 10, k - 1);
        push_digit(s, (n % 10) as usize);
    }
}

/// Appending one digit character.
pub fn push_digit(s: &mut String, d: usize)
    requires
        d < 10,
    ensures
        final(s)@ == old(s)@.push(digit_char(d as int)),
{
    let table = "0123456789";
    proof {
        reveal_strlit("0123456789");
    }
    let one = table.substring_char(d, d + 1);
    assert(one@ =~= seq![digit_char(d as int)]);
    s.append(one);
}

/// Price units per whole quote-currency unit: prices carry eight decimals.
pub const PRICE_SCALE: u64 = 100_000_000;

/// Digits after the decimal point of a price: the `k`-digit zero-padded
/// fraction with trailing zeros removed, keeping at least one digit.
pub open spec fn fraction_text(f: nat, k: nat) -> Seq<char>
    decreases k,
{
    if k > 1 && f % 10 == 0 {
        fraction_text(f / 10, (k - 1) as nat)
    } else {
        padded_digits(f, k)
    }
}

/// Decimal text of a price in price units, as JSON writes a number: a sign when
/// negative, the whole part, a point and the shortest fraction (`10.5`, `6.0`).
pub open spec fn price_text(p: int) -> Seq<char> {
    let a: nat = if p < 0 { (-p) as nat } else { p as nat };
    let sign: Seq<char> = if p < 0 { seq!['-'] } else { Seq::empty() };
    sign + digits_of(a / (PRICE_SCALE as nat)) + seq!['.'] + fraction_text(a % (PRICE_SCALE as nat), 8)
}

/// Appending the decimal text of a price.
pub fn push_price(s: &mut String, p: i64)
    ensures
        final(s)@ == old(s)@ + price_text(p as int),
{
    let ghost start = s@;
    let neg = p < 0;
    let a: u64 = if neg { (0i128 - p as i128) as u64 } else { p as u64 };
    let ghost sign: Seq<char> = if neg { seq!['-'] } else { Seq::empty() };
    if neg {
        s.append("-");
        proof {
            reveal_strlit("-");
        }
    }
    assert(s@ =~= start + sign);
    push_digits(s, a / PRICE_SCALE);
    s.append(".");
    proof {
        reveal_strlit(".");
    }
    let mut f: u64 = a % PRICE_SCALE;
    let mut k: u32 = 8;
    while k > 1 && f % 10 == 0
        invariant
            1 <= k <= 8,
            fraction_text((a % PRICE_SCALE) as nat, 8) == fraction_text(f as nat, k as nat),
        decreases k,
    {
        f = f / 10;
        k = k - 1;
    }
    push_padded_digits(s, f, k);
    assert(s@ =~= old(s)@ + price_text(p as int));
}

} // verus!
