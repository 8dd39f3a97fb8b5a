use vstd::prelude::*;

verus! {

#[verifier::external_type_specification]
#[verifier::external_body]
pub struct ExHeaplessString<const N: usize>(heapless::String<N>);

/// The characters held by a two-byte `heapless::String`.
pub uninterp spec fn text2(s: heapless::String<2>) -> Seq<char>;

/// Relies on `heapless::String::new`: a new string is empty.
#[verifier::external_body]
fn new_text2() -> (s: heapless::String<2>)
    ensures
        text2(s) == Seq::<char>::empty(),
{
    heapless::String::new()
}

/// Relies on `heapless::String::push`: on a string of ASCII characters (one
/// byte each), an ASCII character is appended when a byte is free; otherwise
/// `Err` and the string is unchanged.
#[verifier::external_body]
fn push_text2(s: &mut heapless::String<2>, c: char) -> (r: Result<(), ()>)
    requires
        (c as u32) < 128,
        forall|k: int| 0 <= k < text2(*old(s)).len() ==> (#[trigger] text2(*old(s))[k] as u32) < 128,
    ensures
        text2(*old(s)).len() < 2 ==> r is Ok && text2(*final(s)) == text2(*old(s)).push(c),
        text2(*old(s)).len() >= 2 ==> r is Err && text2(*final(s)) == text2(*old(s)),
{
    s.push(c)
}

/// Relies on `heapless::String`'s `Deref` to `str`: the characters, in order.
#[verifier::external_body]
pub(crate) fn chars_of2(s: &heapless::String<2>) -> (r: Vec<char>)
    ensures
        r@ == text2(*s),
{
    s.chars().collect()
}

/// The characters held by a four-byte `heapless::String`.
pub uninterp spec fn text4(s: heapless::String<4>) -> Seq<char>;

/// Relies on `heapless::String::new`: a new string is empty.
#[verifier::external_body]
fn new_text4() -> (s: heapless::String<4>)
    ensures
        text4(s) == Seq::<char>::empty(),
{
    heapless::String::new()
}

/// Relies on `heapless::String::push`: on a string of ASCII characters (one
/// byte each), an ASCII character is appended when a byte is free; otherwise
/// `Err` and the string is unchanged.
#[verifier::external_body]
fn push_text4(s: &mut heapless::String<4>, c: char) -> (r: Result<(), ()>)
    requires
        (c as u32) < 128,
        forall|k: int| 0 <= k < text4(*old(s)).len() ==> (#[trigger] text4(*old(s))[k] as u32) < 128,
    ensures
        text4(*old(s)).len() < 4 ==> r is Ok && text4(*final(s)) == text4(*old(s)).push(c),
        text4(*old(s)).len() >= 4 ==> r is Err && text4(*final(s)) == text4(*old(s)),
{
    s.push(c)
}

/// Relies on `heapless::String`'s `Deref` to `str`: the characters, in order.
#[verifier::external_body]
pub(crate) fn chars_of4(s: &heapless::String<4>) -> (r: Vec<char>)
    ensures
        r@ == text4(*s),
{
    s.chars().collect()
}


/// The character of the decimal digit `d`.
pub open spec fn digit_char(d: int) -> char {
    ((48 + d) as u8) as char
}

/// The value of a decimal digit character, or `None` for any other character.
pub open spec fn decimal_of(c: char) -> Option<int> {
    if '0' <= c && c <= '9' {
        Some(c as int - 48)
    } else {
        None
    }
}

/// Two-digit, zero-padded decimal text of `n`.
pub open spec fn padded2(n: int) -> Seq<char> {
    seq![digit_char(n / 10), digit_char(n % 10)]
}

/// Four-digit, zero-padded decimal text of `n`.
pub open spec fn padded4(n: int) -> Seq<char> {
    seq![digit_char(n / 1000), digit_char((n / 100) % 10), digit_char((n / 10) % 10), digit_char(n % 10)]
}

/// Bit `b` of `d`, least significant first.
pub open spec fn bit_set(d: u32, b: int) -> bool {
    (d >> (b as u32)) & 1 == 1
}

/// Four characters '1' or '0', one per bit of `d`, least significant bit first.
pub open spec fn rev_bits(d: u32) -> Seq<char> {
    Seq::new(4, |b: int| if bit_set(d, b) { '1' } else { '0' })
}

/// Reads four '1'/'0' characters back as a number, least significant first.
pub open spec fn rev_bits_value(s: Seq<char>) -> int {
    (if s[0] == '1' { 1int } else { 0 }) + (if s[1] == '1' { 2int } else { 0 })
        + (if s[2] == '1' { 4int } else { 0 }) + (if s[3] == '1' { 8int } else { 0 })
}

/// A digit's character reads back as the digit.
pub proof fn lemma_digit_char(d: int)
    requires
        0 <= d < 10,
    ensures
        decimal_of(digit_char(d)) == Some(d),
{
}

fn digit_to_char(d: u32) -> (c: char)
    requires
        d < 10,
    ensures
        c == digit_char(d as int),
{
    (48u8 + d as u8) as char
}

/// The value of a decimal digit character, if it is one.
pub fn decimal_value(c: char) -> (r: Option<u32>)
    ensures
        r matches Some(v) ==> decimal_of(c) == Some(v as int),
        r is None <==> decimal_of(c) is None,
{
    if '0' <= c && c <= '9' {
        Some(c as u32 - 48)
    } else {
        None
    }
}

/// Two-digit, zero-padded decimal text of `num`.
pub fn pad2(num: u32) -> (s: heapless::String<2>)
    requires
        num < 100,
    ensures
        text2(s) == padded2(num as int),
{
    let mut s = new_text2();
    let tens = num / 10;
    let ones = num % 10;
    let _ = push_text2(&mut s, digit_to_char(tens));
    let _ = push_text2(&mut s, digit_to_char(ones));
    assert(text2(s) =~= padded2(num as int));
    s
}

/// Four-digit, zero-padded decimal text of `num`.
pub fn pad4(num: u32) -> (s: heapless::String<4>)
    requires
        num < 10000,
    ensures
        text4(s) == padded4(num as int),
{
    let mut s = new_text4();
    let thousands = num / 1000;
    let hundreds = (num / 100) % 10;
    let tens = (num / 10) % 10;
    let ones = num % 10;
    let _ = push_text4(&mut s, digit_to_char(thousands));
    let _ = push_text4(&mut s, digit_to_char(hundreds));
    let _ = push_text4(&mut s, digit_to_char(tens));
    let _ = push_text4(&mut s, digit_to_char(ones));
    assert(text4(s) =~= padded4(num as int));
    s
}

/// The bits of `digit`, as '1' and '0', least significant first.
pub fn digit_to_rev_bin(digit: u32) -> (s: heapless::String<4>)
    ensures
        text4(s) == rev_bits(digit),
{
    let mut s = new_text4();
    let mut bit: u32 = 0;
    while bit < 4
        invariant
            bit <= 4,
            text4(s).len() == bit,
            forall|b: int| 0 <= b < bit ==> text4(s)[b] == (if bit_set(digit, b) { '1' } else { '0' }),
        decreases 4 - bit,
    {
        let _ = push_text4(&mut s, if (digit >> bit) & 1 == 1 { '1' } else { '0' });
        bit += 1;
    }
    assert(text4(s) =~= rev_bits(digit));
    s
}

/// Reading back the two characters of a zero-padded value below 100 as decimal
/// digits gives the value again.
pub proof fn lemma_pad2_round_trip(n: u32)
    requires
        n < 100,
    ensures
        padded2(n as int).len() == 2,
        decimal_of(padded2(n as int)[0]) is Some,
        decimal_of(padded2(n as int)[1]) is Some,
        decimal_of(padded2(n as int)[0])->0 * 10 + decimal_of(padded2(n as int)[1])->0 == n,
{
    lemma_digit_char(n as int / 10);
    lemma_digit_char(n as int % 10);
}

/// Reading the four bits of a decimal digit back, least significant first,
/// gives the digit; no decimal digit has bit 4 set.
pub proof fn lemma_rev_bits_round_trip(d: u32)
    requires
        d < 10,
    ensures
        rev_bits_value(rev_bits(d)) == d,
        !bit_set(d, 4),
{
    assert(d < 16 ==> d == ((d >> 0u32) & 1) + 2 * ((d >> 1u32) & 1) + 4 * ((d >> 2u32) & 1) + 8 * ((d >> 3u32) & 1)) by (bit_vector);
    assert(forall|k: u32| #![auto] k < 4 ==> ((d >> k) & 1 == 1 || (d >> k) & 1 == 0)) by (bit_vector);
    assert(d < 16 ==> (d >> 4u32) & 1 == 0) by (bit_vector);
}

} // verus!
