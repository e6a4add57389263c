//! The text held by a brightness control file: a decimal integer, optionally
//! preceded by `+` and surrounded by ASCII whitespace (`"255\n"`).
use vstd::prelude::*;

verus! {

pub open spec fn is_space(b: u8) -> bool {
    b == 0x20u8 || b == 0x09u8 || b == 0x0au8 || b == 0x0bu8 || b == 0x0cu8 || b == 0x0du8
}

pub open spec fn is_digit(b: u8) -> bool {
    0x30u8 <= b <= 0x39u8
}

/// The text without its leading whitespace.
pub open spec fn trim_front(s: Seq<u8>) -> Seq<u8>
    decreases s.len(),
{
    if s.len() > 0 && is_space(s[0]) {
        trim_front(s.skip(1))
    } else {
        s
    }
}

/// The text without its trailing whitespace.
pub open spec fn trim_back(s: Seq<u8>) -> Seq<u8>
    decreases s.len(),
{
    if s.len() > 0 && is_space(s.last()) {
        trim_back(s.drop_last())
    } else {
        s
    }
}

pub open spec fn trim(s: Seq<u8>) -> Seq<u8> {
    trim_back(trim_front(s))
}

/// The number that a string of decimal digits spells.
pub open spec fn digits_value(s: Seq<u8>) -> nat
    decreases s.len(),
{
    if s.len() == 0 {
        0
    } else {
        digits_value(s.drop_last()) * 10 + (s.last() - 0x30u8) as nat
    }
}

/// The digits of a trimmed text, after an optional `+`.
pub open spec fn unsigned_digits(t: Seq<u8>) -> Seq<u8> {
    if t.len() > 0 && t[0] == 0x2bu8 {
        t.skip(1)
    } else {
        t
    }
}

/// The value held by a control file's text, if it holds a `u32`.
pub open spec fn control_value(s: Seq<u8>) -> Option<u32> {
    let d = unsigned_digits(trim(s));
    if d.len() > 0 && (forall|i: int| 0 <= i < d.len() ==> is_digit(#[trigger] d[i]))
        && digits_value(d) <= u32::MAX {
        Some(digits_value(d) as u32)
    } else {
        None
    }
}

proof fn lemma_digits_step(s: Seq<u8>, a: int, k: int)
    requires
        0 <= a <= k < s.len(),
    ensures
        digits_value(s.subrange(a, k + 1)) == digits_value(s.subrange(a, k)) * 10 + (s[k]
            - 0x30u8) as nat,
{
    assert(s.subrange(a, k + 1).drop_last() =~= s.subrange(a, k));
}

/// Reads the value of a control file's text; `None` when the text is not a
/// decimal integer that fits in a `u32`.
pub fn parse_control(text: &[u8]) -> (r: Option<u32>)
    ensures
        r == control_value(text@),
{
    let n = text.len();
    let mut i: usize = 0;
    assert(text@.subrange(0, n as int) =~= text@);
    while i < n && (text[i] == 0x20 || text[i] == 0x09 || text[i] == 0x0a || text[i] == 0x0b
        || text[i] == 0x0c || text[i] == 0x0d)
        invariant
            i <= n,
            n == text@.len(),
            trim_front(text@) == trim_front(text@.subrange(i as int, n as int)),
        decreases n - i,
    {
        assert(text@.subrange(i as int, n as int).skip(1) =~= text@.subrange(i + 1, n as int));
        i = i + 1;
    }
    assert(trim_front(text@) == text@.subrange(i as int, n as int));
    let mut j: usize = n;
    while j > i && (text[j - 1] == 0x20 || text[j - 1] == 0x09 || text[j - 1] == 0x0a || text[j
        - 1] == 0x0b || text[j - 1] == 0x0c || text[j - 1] == 0x0d)
        invariant
            i <= j <= n,
            n == text@.len(),
            trim(text@) == trim_back(text@.subrange(i as int, j as int)),
        decreases j - i,
    {
        assert(text@.subrange(i as int, j as int).drop_last() =~= text@.subrange(
            i as int,
            j - 1,
        ));
        j = j - 1;
    }
    let ghost t = text@.subrange(i as int, j as int);
    assert(trim(text@) == t);
    let mut a: usize = i;
    if a < j && text[a] == 0x2b {
        a = a + 1;
    }
    let ghost d = text@.subrange(a as int, j as int);
    assert(unsigned_digits(t) =~= d);
    if a == j {
        assert(d.len() == 0);
        return None;
    }
    let mut value: u64 = 0;
    let mut k: usize = a;
    while k < j
        invariant
            i <= a <= k <= j <= n,
            n == text@.len(),
            d == text@.subrange(a as int, j as int),
            unsigned_digits(trim(text@)) == d,
            value == digits_value(text@.subrange(a as int, k as int)),
            value <= u32::MAX,
            forall|p: int| a <= p < k ==> is_digit(#[trigger] text@[p]),
        decreases j - k,
    {
        let b = text[k];
        if b < 0x30 || b > 0x39 {
            assert(d[k - a] == text@[k as int]);
            assert(!is_digit(d[k - a]));
            return None;
        }
        proof {
            lemma_digits_step(text@, a as int, k as int);
        }
        let next = value * 10 + (b - 0x30) as u64;
        if next > 0xffff_ffffu64 {
            proof {
                lemma_digits_prefix_bound(text@, a as int, k as int + 1, j as int);
                assert(text@.subrange(a as int, j as int) == d);
            }
            return None;
        }
        value = next;
        k = k + 1;
    }
    assert(text@.subrange(a as int, k as int) =~= d);
    assert forall|p: int| 0 <= p < d.len() implies is_digit(#[trigger] d[p]) by {
        assert(d[p] == text@[a + p]);
    }
    Some(value as u32)
}

/// A longer string of digits spells at least as large a number.
proof fn lemma_digits_prefix_bound(s: Seq<u8>, a: int, k: int, j: int)
    requires
        0 <= a <= k <= j <= s.len(),
    ensures
        digits_value(s.subrange(a, k)) <= digits_value(s.subrange(a, j)),
    decreases j - k,
{
    if k < j {
        lemma_digits_prefix_bound(s, a, k + 1, j);
        lemma_digits_step(s, a, k);
    }
}

/// The decimal digits of `n`, most significant first, without leading zeros.
pub open spec fn decimal(n: nat) -> Seq<u8>
    decreases n,
{
    if n < 10 {
        seq![(0x30 + n) as u8]
    } else {
        decimal(n / 10).push((0x30 + n % 10) as u8)
    }
}

fn push_decimal(n: u32, out: &mut Vec<u8>)
    ensures
        final(out)@ == old(out)@ + decimal(n as nat),
    decreases n,
{
    if n >= 10 {
        push_decimal(n / 10, out);
    }
    out.push(0x30 + (n % 10) as u8);
    proof {
        if n >= 10 {
            assert(final(out)@ =~= old(out)@ + decimal(n as nat));
        } else {
            assert(final(out)@ =~= old(out)@ + decimal(n as nat));
        }
    }
}

/// The text written to a brightness control file for `raw`: its decimal
/// digits and a newline.
pub fn control_text(raw: u32) -> (r: Vec<u8>)
    ensures
        r@ == decimal(raw as nat).push(0x0au8),
{
    let mut out: Vec<u8> = Vec::new();
    push_decimal(raw, &mut out);
    out.push(0x0a);
    proof {
        assert(out@ =~= decimal(raw as nat).push(0x0au8));
    }
    out
}

proof fn lemma_decimal_digits(n: nat)
    ensures
        decimal(n).len() > 0,
        forall|i: int| 0 <= i < decimal(n).len() ==> is_digit(#[trigger] decimal(n)[i]),
        digits_value(decimal(n)) == n,
    decreases n,
{
    if n >= 10 {
        lemma_decimal_digits(n / 10);
        assert(decimal(n).drop_last() =~= decimal(n / 10));
        assert(decimal(n).last() == (0x30 + n % 10) as u8);
        assert(n == (n / 10) * 10 + n % 10);
        assert(digits_value(decimal(n)) == digits_value(decimal(n).drop_last()) * 10 + (
        decimal(n).last() - 0x30u8) as nat);
    } else {
        assert(decimal(n).drop_last() =~= Seq::<u8>::empty());
        assert(digits_value(decimal(n)) == digits_value(decimal(n).drop_last()) * 10 + (
        decimal(n).last() - 0x30u8) as nat);
    }
}

/// Reading back the text written for a raw value gives that value.
pub proof fn lemma_control_round_trip(raw: u32)
    ensures
        control_value(decimal(raw as nat).push(0x0au8)) == Some(raw),
{
    let d = decimal(raw as nat);
    let s = d.push(0x0au8);
    lemma_decimal_digits(raw as nat);
    assert(!is_space(s[0]));
    assert(trim_front(s) == s);
    assert(s.drop_last() =~= d);
    assert(!is_space(d.last()));
    assert(trim_back(d) == d);
    assert(trim_back(s) == d);
    assert(trim(s) == d);
    assert(unsigned_digits(d) == d);
}

} // verus!
