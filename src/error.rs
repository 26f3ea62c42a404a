use vstd::prelude::*;

verus! {

/// The decimal digit for `d`, which is below ten.
pub open spec fn digit_char(d: nat) -> char {
    seq!['0', '1', '2', '3', '4', '5', '6', '7', '8', '9'][d as int]
}

/// The decimal rendering of `n`, without leading zeros.
pub open spec fn decimal(n: nat) -> Seq<char>
    decreases n,
{
    if n < 10 {
        seq![digit_char(n)]
    } else {
        decimal(n / 10).push(digit_char(n % 10))
    }
}

/// Relies on `<u8 as ToString>::to_string`: it renders the value in decimal, without
/// leading zeros or sign.
#[verifier::external_body]
fn u8_to_decimal(n: u8) -> (r: String)
    ensures
        r@ == decimal(n as nat),
{
    n.to_string()
}

/// Returned when text does not fit the inline buffer. It carries the byte length
/// of the rejected text, narrowed to eight bits.
#[derive(Debug, Clone, Copy, PartialEq, Eq)]
pub struct OversizedError(u8);

impl OversizedError {
    /// The reported length: the rejected text's byte length, modulo 256.
    pub closed spec fn spec_length(self) -> u8 {
        self.0
    }

    pub(crate) fn from_byte_len(len: usize) -> (r: Self)
        ensures
            r.spec_length() == len as u8,
    {
        OversizedError(len as u8)
    }

    pub fn length(&self) -> (r: u8)
        ensures
            r == self.spec_length(),
    {
        self.0
    }

    /// The diagnostic message for this error.
    pub fn to_string(&self) -> (r: String)
        ensures
            r@ == "Oversized text, length should be < 23 (got: "@ + decimal(
                self.spec_length() as nat,
            ) + ")"@,
    {
        let mut s = String::from_str("Oversized text, length should be < 23 (got: ");
        let digits = u8_to_decimal(self.0);
        s.append(digits.as_str());
        s.append(")");
        s
    }
}

} // verus!
