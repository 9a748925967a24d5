//! Arbitrary-precision integers that stand for field elements before reduction.
use vstd::arithmetic::power::pow;
use vstd::prelude::*;

verus! {

/// The base of one limb.
pub open spec fn limb_base() -> int {
    0x1_0000_0000
}

/// Value of little-endian base-2^32 limbs.
pub open spec fn limbs_value(limbs: Seq<u32>) -> int
    decreases limbs.len(),
{
    if limbs.len() == 0 {
        0
    } else {
        limbs_value(limbs.drop_last()) + limbs.last() as int * pow(limb_base(), (limbs.len() - 1) as nat)
    }
}

/// ASCII code of the decimal digit `d`.
pub open spec fn digit_byte(d: int) -> u8 {
    (d + 48) as u8
}

/// Decimal digits of `n`, most significant first, with no leading zero.
pub open spec fn nat_decimal(n: nat) -> Seq<u8>
    decreases n,
{
    if n < 10 {
        seq![digit_byte(n as int)]
    } else {
        nat_decimal(n / 10).push(digit_byte((n % 10) as int))
    }
}

/// Decimal text of an integer: a `-` before a negative value, then its digits.
pub open spec fn decimal_text(v: int) -> Seq<u8> {
    if v < 0 {
        seq![45u8] + nat_decimal((-v) as nat)
    } else {
        nat_decimal(v as nat)
    }
}

pub open spec fn is_digit(b: u8) -> bool {
    48 <= b <= 57
}

pub open spec fn all_digits(s: Seq<u8>) -> bool {
    forall|i: int| 0 <= i < s.len() ==> #[trigger] is_digit(s[i])
}

/// Value of a run of decimal digits.
pub open spec fn digits_value(s: Seq<u8>) -> int
    decreases s.len(),
{
    if s.len() == 0 {
        0
    } else {
        digits_value(s.drop_last()) * 10 + (s.last() - 48)
    }
}

/// An optional `-` followed by one or more decimal digits.
pub open spec fn is_decimal_text(s: Seq<u8>) -> bool {
    if s.len() > 0 && s[0] == 45u8 {
        s.len() > 1 && all_digits(s.drop_first())
    } else {
        s.len() > 0 && all_digits(s)
    }
}

/// The integer that a decimal text denotes.
pub open spec fn decimal_value(s: Seq<u8>) -> int {
    if s.len() > 0 && s[0] == 45u8 {
        -digits_value(s.drop_first())
    } else {
        digits_value(s)
    }
}

/// The decimal text of a natural number is a non-empty run of digits that reads back as it.
pub proof fn lemma_nat_decimal(n: nat)
    ensures
        nat_decimal(n).len() >= 1,
        all_digits(nat_decimal(n)),
        digits_value(nat_decimal(n)) == n,
    decreases n,
{
    if n < 10 {
        assert(nat_decimal(n).drop_last() =~= Seq::<u8>::empty());
        assert(nat_decimal(n).last() - 48 == n);
        assert(digits_value(nat_decimal(n).drop_last()) == 0);
        assert(digits_value(nat_decimal(n)) == digits_value(nat_decimal(n).drop_last()) * 10 + (
        nat_decimal(n).last() - 48));
    } else {
        lemma_nat_decimal(n / 10);
        let s = nat_decimal(n);
        assert(s.drop_last() =~= nat_decimal(n / 10));
        vstd::arithmetic::div_mod::lemma_fundamental_div_mod(n as int, 10);
        assert(s.last() == digit_byte((n % 10) as int));
        assert(s.last() - 48 == n % 10);
        assert(digits_value(s) == digits_value(s.drop_last()) * 10 + (s.last() - 48));
        assert forall|i: int| 0 <= i < s.len() implies #[trigger] is_digit(s[i]) by {
            if i < s.len() - 1 {
                assert(s[i] == nat_decimal(n / 10)[i]);
            }
        }
    }
}

/// Decimal text reads back as the integer it was written from.
pub proof fn lemma_decimal_text(x: int)
    ensures
        is_decimal_text(decimal_text(x)),
        decimal_value(decimal_text(x)) == x,
        forall|i: int| 0 <= i < decimal_text(x).len() ==> #[trigger] decimal_text(x)[i] != 34u8,
{
    if x < 0 {
        let d = nat_decimal((-x) as nat);
        lemma_nat_decimal((-x) as nat);
        assert((seq![45u8] + d).drop_first() =~= d);
        assert forall|i: int| 0 <= i < decimal_text(x).len() implies #[trigger] decimal_text(x)[i]
            != 34u8 by {
            if i > 0 {
                assert(decimal_text(x)[i] == d[i - 1]);
                assert(is_digit(d[i - 1]));
            }
        }
    } else {
        let d = nat_decimal(x as nat);
        lemma_nat_decimal(x as nat);
        assert forall|i: int| 0 <= i < decimal_text(x).len() implies #[trigger] decimal_text(x)[i]
            != 34u8 by {
            assert(is_digit(d[i]));
        }
        assert(d[0] != 45u8) by {
            assert(is_digit(d[0]));
        }
    }
}

/// Little-endian value of some bytes.
pub open spec fn le_value(bytes: Seq<u8>) -> int
    decreases bytes.len(),
{
    if bytes.len() == 0 {
        0
    } else {
        le_value(bytes.drop_last()) + bytes.last() as int * pow(256, (bytes.len() - 1) as nat)
    }
}

/// An integer of any size: a sign and little-endian base-2^32 limbs.
#[derive(Debug, Clone, PartialEq, Eq)]
pub struct FieldValue {
    negative: bool,
    limbs: Vec<u32>,
}

impl View for FieldValue {
    type V = int;

    closed spec fn view(&self) -> int {
        if self.negative {
            -limbs_value(self.limbs@)
        } else {
            limbs_value(self.limbs@)
        }
    }
}

proof fn lemma_limbs_push(limbs: Seq<u32>, d: u32)
    ensures
        limbs_value(limbs.push(d)) == limbs_value(limbs) + d as int * pow(limb_base(), limbs.len()),
{
    assert(limbs.push(d).drop_last() =~= limbs);
}

proof fn lemma_le_step(bytes: Seq<u8>, j: int)
    requires
        0 <= j,
        4 * j + 4 <= bytes.len(),
    ensures
        le_value(bytes.subrange(0, 4 * j + 4)) == le_value(bytes.subrange(0, 4 * j)) + (
        bytes[4 * j] as int + 256 * bytes[4 * j + 1] as int + 65536 * bytes[4 * j + 2] as int
            + 16777216 * bytes[4 * j + 3] as int) * pow(limb_base(), j as nat),
{
    let s0 = bytes.subrange(0, 4 * j);
    let s1 = bytes.subrange(0, 4 * j + 1);
    let s2 = bytes.subrange(0, 4 * j + 2);
    let s3 = bytes.subrange(0, 4 * j + 3);
    let s4 = bytes.subrange(0, 4 * j + 4);
    assert(s1.drop_last() =~= s0);
    assert(s2.drop_last() =~= s1);
    assert(s3.drop_last() =~= s2);
    assert(s4.drop_last() =~= s3);
    let p = pow(256, (4 * j) as nat);
    vstd::arithmetic::power::lemma_pow_adds(256, (4 * j) as nat, 1);
    vstd::arithmetic::power::lemma_pow_adds(256, (4 * j) as nat, 2);
    vstd::arithmetic::power::lemma_pow_adds(256, (4 * j) as nat, 3);
    assert(pow(256, 1) == 256) by {
        vstd::arithmetic::power::lemma_pow1(256);
    }
    assert(pow(256, 2) == 65536) by {
        vstd::arithmetic::power::lemma_pow_adds(256, 1, 1);
        vstd::arithmetic::power::lemma_pow1(256);
    }
    assert(pow(256, 3) == 16777216) by {
        vstd::arithmetic::power::lemma_pow_adds(256, 2, 1);
        vstd::arithmetic::power::lemma_pow_adds(256, 1, 1);
        vstd::arithmetic::power::lemma_pow1(256);
    }
    assert(pow(256, 4) == limb_base()) by {
        vstd::arithmetic::power::lemma_pow_adds(256, 2, 2);
        vstd::arithmetic::power::lemma_pow_adds(256, 1, 1);
        vstd::arithmetic::power::lemma_pow1(256);
    }
    vstd::arithmetic::power::lemma_pow_multiplies(256, 4, j as nat);
    assert(p == pow(limb_base(), j as nat));
    let b0 = bytes[4 * j] as int;
    let b1 = bytes[4 * j + 1] as int;
    let b2 = bytes[4 * j + 2] as int;
    let b3 = bytes[4 * j + 3] as int;
    assert(pow(256, (4 * j + 1) as nat) == p * 256);
    assert(pow(256, (4 * j + 2) as nat) == p * 65536);
    assert(pow(256, (4 * j + 3) as nat) == p * 16777216);
    assert(s1.last() == bytes[4 * j] && s2.last() == bytes[4 * j + 1] && s3.last() == bytes[4 * j
        + 2] && s4.last() == bytes[4 * j + 3]);
    assert(le_value(s1) == le_value(s0) + b0 * p);
    assert(le_value(s2) == le_value(s1) + b1 * (p * 256));
    assert(le_value(s3) == le_value(s2) + b2 * (p * 65536));
    assert(le_value(s4) == le_value(s3) + b3 * (p * 16777216));
    assert(b0 * p + b1 * (p * 256) + b2 * (p * 65536) + b3 * (p * 16777216) == (b0 + 256 * b1
        + 65536 * b2 + 16777216 * b3) * p) by (nonlinear_arith);
}

impl FieldValue {
    pub fn zero() -> (r: FieldValue)
        ensures
            r@ == 0,
    {
        FieldValue { negative: false, limbs: Vec::new() }
    }

    pub fn from_u128(x: u128) -> (r: FieldValue)
        ensures
            r@ == x as int,
    {
        FieldValue { negative: false, limbs: magnitude_limbs(x) }
    }

    pub fn from_i128(x: i128) -> (r: FieldValue)
        ensures
            r@ == x as int,
    {
        if x < 0 {
            let m: u128 = ((-(x + 1)) as u128) + 1;
            FieldValue { negative: true, limbs: magnitude_limbs(m) }
        } else {
            FieldValue { negative: false, limbs: magnitude_limbs(x as u128) }
        }
    }

    pub fn from_bool(b: bool) -> (r: FieldValue)
        ensures
            r@ == (if b { 1int } else { 0int }),
    {
        if b {
            FieldValue::from_u128(1)
        } else {
            FieldValue::zero()
        }
    }

    /// A copy with the same value.
    pub fn duplicate(&self) -> (r: FieldValue)
        ensures
            r@ == self@,
    {
        let mut limbs: Vec<u32> = Vec::new();
        let mut i: usize = 0;
        while i < self.limbs.len()
            invariant
                i <= self.limbs@.len(),
                limbs@ == self.limbs@.subrange(0, i as int),
            decreases self.limbs@.len() - i,
        {
            limbs.push(self.limbs[i]);
            i += 1;
            assert(limbs@ =~= self.limbs@.subrange(0, i as int));
        }
        assert(limbs@ =~= self.limbs@);
        FieldValue { negative: self.negative, limbs }
    }

    /// The unsigned integer whose little-endian bytes are `bytes`.
    pub fn from_le_bytes(source: &[u8]) -> (r: FieldValue)
        ensures
            r@ == le_value(source@),
    {
        // Copy the bytes and pad them with high zero bytes to whole limbs.
        let mut bytes: Vec<u8> = Vec::new();
        let mut i: usize = 0;
        while i < source.len()
            invariant
                i <= source@.len(),
                bytes@ == source@.subrange(0, i as int),
            decreases source@.len() - i,
        {
            bytes.push(source[i]);
            i += 1;
            assert(bytes@ =~= source@.subrange(0, i as int));
        }
        assert(bytes@ =~= source@);
        let pad: usize = (4 - source.len() % 4) % 4;
        let mut k: usize = 0;
        while k < pad
            invariant
                k <= pad,
                pad == (4 - source@.len() % 4) % 4,
                bytes@.len() == source@.len() + k,
                le_value(bytes@) == le_value(source@),
            decreases pad - k,
        {
            let ghost before = bytes@;
            bytes.push(0u8);
            k += 1;
            assert(bytes@.drop_last() =~= before);
        }
        assert(bytes@.len() % 4 == 0);
        let n = bytes.len();
        let mut limbs: Vec<u32> = Vec::new();
        let mut j: usize = 0;
        while 4 * j < n
            invariant
                n == bytes@.len(),
                n % 4 == 0,
                4 * j <= n,
                limbs@.len() == j,
                limbs_value(limbs@) == le_value(bytes@.subrange(0, 4 * j)),
            decreases n - 4 * j,
        {
            let k = 4 * j;
            let limb: u32 = bytes[k] as u32 + 256 * (bytes[k + 1] as u32) + 65536 * (bytes[k + 2] as u32)
                + 16777216 * (bytes[k + 3] as u32);
            proof {
                lemma_le_step(bytes@, j as int);
                lemma_limbs_push(limbs@, limb);
            }
            limbs.push(limb);
            j += 1;
        }
        assert(bytes@.subrange(0, 4 * j) =~= bytes@);
        while limbs.len() > 0 && limbs[limbs.len() - 1] == 0
            invariant
                limbs_value(limbs@) == le_value(source@),
            decreases limbs@.len(),
        {
            let ghost before = limbs@;
            limbs.pop();
            proof {
                assert(limbs@ =~= before.drop_last());
            }
        }
        FieldValue { negative: false, limbs }
    }

    /// The decimal text of this value, as ASCII bytes.
    pub fn to_decimal(&self) -> (r: Vec<u8>)
        ensures
            r@ == decimal_text(self@),
    {
        decimal_bytes(self)
    }

    /// Reads a decimal text: an optional `-` and one or more digits.
    pub fn parse_decimal(text: &[u8]) -> (r: Option<FieldValue>)
        ensures
            r is Some <==> is_decimal_text(text@),
            r matches Some(v) ==> v@ == decimal_value(text@),
    {
        if !check_decimal(text) {
            return None;
        }
        parse_decimal_bytes(text)
    }
}

/// The limbs of `x`, least significant first.
fn magnitude_limbs(x: u128) -> (r: Vec<u32>)
    ensures
        limbs_value(r@) == x as int,
{
    let mut limbs: Vec<u32> = Vec::new();
    let mut rest: u128 = x;
    let ghost mut scale: int = 1;
    proof {
        vstd::arithmetic::power::lemma_pow0(limb_base());
    }
    while rest > 0
        invariant
            scale == pow(limb_base(), limbs@.len()),
            scale > 0,
            limbs_value(limbs@) + scale * rest == x,
        decreases rest,
    {
        let d: u32 = (rest % 0x1_0000_0000) as u32;
        let next: u128 = rest / 0x1_0000_0000;
        let ghost before = limbs@;
        let ghost lv = limbs_value(limbs@);
        proof {
            lemma_limbs_push(limbs@, d);
            vstd::arithmetic::power::lemma_pow1(limb_base());
            vstd::arithmetic::power::lemma_pow_adds(limb_base(), limbs@.len(), 1);
            assert(rest == next * limb_base() + d);
            assert(scale * rest == d * scale + (scale * limb_base()) * next) by (nonlinear_arith)
                requires
                    rest == next * limb_base() + d,
            ;
            assert(scale * limb_base() > 0) by (nonlinear_arith)
                requires
                    scale > 0,
            ;
        }
        limbs.push(d);
        rest = next;
        proof {
            assert(limbs@ == before.push(d));
            assert(limbs_value(limbs@) == lv + d * scale);
            scale = scale * limb_base();
        }
    }
    limbs
}

/// Tells whether `text` is an optional `-` and one or more digits.
fn check_decimal(text: &[u8]) -> (r: bool)
    ensures
        r == is_decimal_text(text@),
{
    let n = text.len();
    if n == 0 {
        return false;
    }
    let start: usize = if text[0] == 45u8 { 1 } else { 0 };
    if start == n {
        return false;
    }
    let mut i: usize = start;
    while i < n
        invariant
            start <= i <= n,
            n == text@.len(),
            start == (if text@[0] == 45u8 { 1usize } else { 0usize }),
            forall|j: int| start <= j < i ==> is_digit(#[trigger] text@[j]),
        decreases n - i,
    {
        if text[i] < 48u8 || text[i] > 57u8 {
            proof {
                if start == 1 {
                    assert(!is_digit(text@.drop_first()[i - 1]));
                } else {
                    assert(!is_digit(text@[i as int]));
                }
            }
            return false;
        }
        i += 1;
    }
    proof {
        if start == 1 {
            assert forall|j: int| 0 <= j < text@.drop_first().len() implies is_digit(
                #[trigger] text@.drop_first()[j],
            ) by {
                assert(text@.drop_first()[j] == text@[j + 1]);
            }
        }
    }
    true
}

/// Relies on num's `BigInt::from_slice` and `BigInt::to_str_radix` with radix 10:
/// a `-` before a negative value, then its digits with no leading zero, and "0" for zero.
#[verifier::external_body]
fn decimal_bytes(v: &FieldValue) -> (r: Vec<u8>)
    ensures
        r@ == decimal_text(v@),
{
    let sign = if v.negative { num::bigint::Sign::Minus } else { num::bigint::Sign::Plus };
    num::BigInt::from_slice(sign, &v.limbs).to_str_radix(10).into_bytes()
}

/// Relies on num's `BigInt::parse_bytes` with radix 10, which reads an optional `-` and
/// decimal digits, and on `BigInt::to_u32_digits` for the sign and the limbs.
#[verifier::external_body]
fn parse_decimal_bytes(text: &[u8]) -> (r: Option<FieldValue>)
    ensures
        is_decimal_text(text@) ==> r is Some,
        is_decimal_text(text@) ==> r.unwrap()@ == decimal_value(text@),
{
    match num::BigInt::parse_bytes(text, 10) {
        Some(b) => {
            let (sign, limbs) = b.to_u32_digits();
            Some(FieldValue { negative: sign == num::bigint::Sign::Minus, limbs })
        },
        None => None,
    }
}

} // verus!
