use vstd::prelude::*;
use vstd::string::*;

verus! {

/// Whether two strings hold the same characters.
pub fn same_text(a: &str, b: &str) -> (r: bool)
    ensures
        r == (a@ == b@),
{
    a.to_owned() == b.to_owned()
}

/// A copy of `text`.
pub fn copy_text(text: &str) -> (r: String)
    ensures
        r@ == text@,
{
    text.to_owned()
}

/// The bytes of a text, which are those of its characters in UTF-8.
pub open spec fn text_bytes(text: Seq<char>) -> Seq<u8> {
    vstd::utf8::encode_utf8(text)
}

/// The bytes of `n` written in decimal, without sign or leading zeros.
pub open spec fn decimal_bytes(n: nat) -> Seq<u8>
    decreases n,
{
    if n < 10 {
        seq![(48 + n) as u8]
    } else {
        decimal_bytes(n / 10).push((48 + n % 10) as u8)
    }
}

/// Writes `n` in decimal.
pub fn decimal(n: u32) -> (digits: Vec<u8>)
    ensures
        digits@ == decimal_bytes(n as nat),
    decreases n,
{
    if n < 10 {
        let mut digits: Vec<u8> = Vec::new();
        digits.push(48 + n as u8);
        assert(digits@ =~= decimal_bytes(n as nat));
        digits
    } else {
        let mut digits = decimal(n / 10);
        digits.push(48 + (n % 10) as u8);
        digits
    }
}

/// Whether `text` is `n` written in decimal, without sign or leading zeros.
pub fn is_decimal_of(text: &str, n: u32) -> (r: bool)
    ensures
        r == (text_bytes(text@) == decimal_bytes(n as nat)),
{
    let digits = decimal(n);
    let bytes = text.as_bytes();
    if bytes.len() != digits.len() {
        return false;
    }
    let mut i: usize = 0;
    while i < digits.len()
        invariant
            0 <= i <= digits.len(),
            bytes@.len() == digits@.len(),
            bytes@ == text.spec_bytes(),
            digits@ == decimal_bytes(n as nat),
            forall|j: int| 0 <= j < i ==> bytes@[j] == digits@[j],
        decreases digits.len() - i,
    {
        if bytes[i] != digits[i] {
            return false;
        }
        i += 1;
    }
    assert(bytes@ =~= digits@);
    true
}

} // verus!
