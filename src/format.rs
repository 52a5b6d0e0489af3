//! The character classes of a CUSIP and the shape checks of its fields.

use vstd::prelude::*;
use crate::error::CUSIPError;

verus! {

/// An ASCII decimal digit, `0` through `9`.
pub open spec fn is_digit(b: u8) -> bool {
    48 <= b <= 57
}

/// An ASCII uppercase letter, `A` through `Z`.
pub open spec fn is_upper(b: u8) -> bool {
    65 <= b <= 90
}

/// One of the 36 symbols that may stand in the payload of a CUSIP.
pub open spec fn is_symbol(b: u8) -> bool {
    is_digit(b) || is_upper(b)
}

/// Every byte of `s` is one of the 36 symbols.
pub open spec fn all_symbols(s: Seq<u8>) -> bool {
    forall|i: int| 0 <= i < s.len() ==> is_symbol(#[trigger] s[i])
}

/// The numeric value of a symbol: 0 through 9 for the digits, 10 through 35
/// for the letters `A` through `Z`.
pub open spec fn symbol_value(b: u8) -> nat {
    if is_digit(b) {
        (b - 48) as nat
    } else {
        (b - 55) as nat
    }
}

/// Whether `b` is one of the 36 symbols.
pub(crate) fn is_symbol_byte(b: u8) -> (r: bool)
    ensures
        r == is_symbol(b),
{
    // 48 is `0`, 57 is `9`, 65 is `A`, 90 is `Z`
    (48 <= b && b <= 57) || (65 <= b && b <= 90)
}

/// Whether every byte of `s` is a symbol.
fn all_symbol_bytes(s: &[u8]) -> (r: bool)
    ensures
        r == all_symbols(s@),
{
    let mut i: usize = 0;
    while i < s.len()
        invariant
            i <= s.len(),
            all_symbols(s@.take(i as int)),
        decreases s.len() - i,
    {
        if !is_symbol_byte(s[i]) {
            assert(!is_symbol(s@[i as int]));
            return false;
        }
        assert(s@.take(i + 1) =~= s@.take(i as int).push(s@[i as int]));
        i += 1;
    }
    assert(s@.take(s.len() as int) =~= s@);
    true
}

/// Checks the shape of an _Issuer Number_: six symbols.
pub(crate) fn validate_issuer_num_format(num: &[u8]) -> (r: Result<(), CUSIPError>)
    requires
        num@.len() == 6,
    ensures
        r is Ok <==> all_symbols(num@),
        r matches Err(e) ==> (e matches CUSIPError::InvalidIssuerNum { was } && was@ == num@),
{
    if !all_symbol_bytes(num) {
        let id_copy: [u8; 6] = [num[0], num[1], num[2], num[3], num[4], num[5]];
        assert(id_copy@ =~= num@);
        return Err(CUSIPError::InvalidIssuerNum { was: id_copy });
    }
    Ok(())
}

/// Checks the shape of an _Issue Number_: two symbols.
pub(crate) fn validate_issue_num_format(num: &[u8]) -> (r: Result<(), CUSIPError>)
    requires
        num@.len() == 2,
    ensures
        r is Ok <==> all_symbols(num@),
        r matches Err(e) ==> (e matches CUSIPError::InvalidIssueNum { was } && was@ == num@),
{
    if !all_symbol_bytes(num) {
        let id_copy: [u8; 2] = [num[0], num[1]];
        assert(id_copy@ =~= num@);
        return Err(CUSIPError::InvalidIssueNum { was: id_copy });
    }
    Ok(())
}

/// Checks the shape of a _Check Digit_: one decimal digit. Letters are
/// symbols, but no check digit.
pub(crate) fn validate_check_digit_format(cd: u8) -> (r: Result<(), CUSIPError>)
    ensures
        r is Ok <==> is_digit(cd),
        r matches Err(e) ==> e == (CUSIPError::InvalidCheckDigit { was: cd }),
{
    if !(48 <= cd && cd <= 57) {
        Err(CUSIPError::InvalidCheckDigit { was: cd })
    } else {
        Ok(())
    }
}

} // verus!
