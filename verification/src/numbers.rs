//! Writing numbers as decimal text.

use vstd::prelude::*;

verus! {

broadcast use {
    vstd::seq_lib::group_seq_properties,
    vstd::seq::group_seq_axioms,
};

/// The character for a decimal digit.
pub open spec fn digit_char(d: int) -> char {
    (('0' as u8) + d) as char
}

/// The decimal digits of `n`, most significant first, without leading zeros.
pub open spec fn decimal_digits(n: nat) -> Seq<char>
    decreases n,
{
    if n < 10 {
        seq![digit_char(n as int)]
    } else {
        decimal_digits(n / 10).push(digit_char((n % 10) as int))
    }
}

/// `count` zeros.
pub open spec fn zeros(count: nat) -> Seq<char> {
    Seq::new(count, |i: int| '0')
}

/// The decimal digits of `n`, with zeros in front to make at least `width`
/// characters.
pub open spec fn zero_padded(n: nat, width: nat) -> Seq<char> {
    let digits = decimal_digits(n);
    if digits.len() < width {
        zeros((width - digits.len()) as nat) + digits
    } else {
        digits
    }
}

/// Every number has at least one digit, and a number below ten has just one.
pub proof fn lemma_decimal_length(n: nat)
    ensures
        decimal_digits(n).len() >= 1,
        n < 10 ==> decimal_digits(n).len() == 1,
    decreases n,
{
    if n >= 10 {
        lemma_decimal_length(n / 10);
    }
}

fn digit(d: u64) -> (c: char)
    requires
        d < 10,
    ensures
        c == digit_char(d as int),
{
    ((('0' as u8) + (d as u8)) as char)
}

/// Writes `n` in decimal.
pub fn decimal(n: u64) -> (text: String)
    ensures
        text@ == decimal_digits(n as nat),
{
    let mut reversed: Vec<char> = Vec::new();
    reversed.push(digit(n % 10));
    let mut rest: u64 = n / 10;
    while rest > 0
        invariant
            decimal_digits(n as nat) == (if rest == 0 {
                Seq::<char>::empty()
            } else {
                decimal_digits(rest as nat)
            }) + reversed@.reverse(),
        decreases rest,
    {
        let ghost before = reversed@;
        let d = digit(rest % 10);
        reversed.push(d);
        proof {
            assert(reversed@.reverse() =~= seq![d] + before.reverse());
            let lead = if rest / 10 == 0 {
                Seq::<char>::empty()
            } else {
                decimal_digits((rest / 10) as nat)
            };
            assert(decimal_digits(rest as nat) =~= lead.push(d));
            assert(lead.push(d) + before.reverse() =~= lead + (seq![d] + before.reverse()));
        }
        rest = rest / 10;
    }
    let mut text = String::new();
    let mut i: usize = reversed.len();
    while i > 0
        invariant
            i <= reversed.len(),
            text@ == reversed@.reverse().take(reversed.len() - i),
        decreases i,
    {
        i -= 1;
        text.push(reversed[i]);
        assert(reversed@.reverse().take(reversed.len() - i) =~= reversed@.reverse().take(
            reversed.len() - i - 1,
        ).push(reversed@[i as int]));
    }
    assert(reversed@.reverse().take(reversed.len() as int) =~= reversed@.reverse());
    assert(Seq::<char>::empty() + reversed@.reverse() =~= reversed@.reverse());
    text
}

/// Writes `n` in decimal, with zeros in front to make at least `width`
/// characters.
pub fn padded(n: u64, width: usize) -> (text: String)
    ensures
        text@ == zero_padded(n as nat, width as nat),
{
    let digits = decimal(n);
    let len = digits.as_str().unicode_len();
    let mut text = String::new();
    if len < width {
        let missing = width - len;
        let mut i: usize = 0;
        while i < missing
            invariant
                i <= missing,
                text@ == zeros(i as nat),
            decreases missing - i,
        {
            text.push('0');
            assert(zeros((i + 1) as nat) =~= zeros(i as nat).push('0'));
            i += 1;
        }
    } else {
        assert(text@ =~= Seq::<char>::empty());
    }
    text.append(digits.as_str());
    assert(Seq::<char>::empty() + digits@ =~= digits@);
    text
}

} // verus!
