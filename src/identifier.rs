//! The validated identifier, its CINS view, and the operations that parse,
//! build and check one.

use vstd::prelude::*;
use crate::checksum::{check_value, checksum_table, reverse_check_value};
use crate::error::CUSIPError;
use crate::format::{
    all_symbols, is_digit, is_symbol, is_upper, validate_check_digit_format,
    validate_issue_num_format, validate_issuer_num_format,
};
use vstd::string::StringSliceAdditionalSpecFns;
use vstd::utf8::encode_utf8;
use crate::text::{all_ascii, ascii_str, text_of, to_upper, trim, trimmed_text, upper_text};

verus! {

/// The _Check Digit_ byte of a payload under the standard's rule.
pub open spec fn check_byte(p: Seq<u8>) -> u8 {
    (48 + check_value(p)) as u8
}

/// A well-formed _Payload_: eight symbols.
pub open spec fn is_valid_payload(p: Seq<u8>) -> bool {
    p.len() == 8 && all_symbols(p)
}

/// A well-formed CUSIP: a valid payload followed by its check digit.
pub open spec fn is_valid_cusip(b: Seq<u8>) -> bool {
    b.len() == 9 && is_valid_payload(b.take(8)) && b[8] == check_byte(b.take(8))
}

/// `e` is the error that parsing `b` reports: the first check that fails, in
/// the order length, _Issuer Number_, _Issue Number_, _Check Digit_ format,
/// _Check Digit_ value. No error fits a well-formed CUSIP.
pub open spec fn parse_rejects(b: Seq<u8>, e: CUSIPError) -> bool {
    if b.len() != 9 {
        e == (CUSIPError::InvalidCUSIPLength { was: b.len() as usize })
    } else if !all_symbols(b.subrange(0, 6)) {
        e matches CUSIPError::InvalidIssuerNum { was } && was@ == b.subrange(0, 6)
    } else if !all_symbols(b.subrange(6, 8)) {
        e matches CUSIPError::InvalidIssueNum { was } && was@ == b.subrange(6, 8)
    } else if !is_digit(b[8]) {
        e == (CUSIPError::InvalidCheckDigit { was: b[8] })
    } else if b[8] != check_byte(b.take(8)) {
        e == (CUSIPError::IncorrectCheckDigit { was: b[8], expected: check_byte(b.take(8)) })
    } else {
        false
    }
}

/// `r` is what parsing the bytes `b` gives: the identifier made of them when
/// they are well formed, else the first error found.
pub open spec fn parse_outcome(b: Seq<u8>, r: Result<CUSIP, CUSIPError>) -> bool {
    match r {
        Ok(c) => is_valid_cusip(b) && c@ == b,
        Err(e) => parse_rejects(b, e),
    }
}

/// `r` is what building from the payload bytes `p` gives: the identifier of
/// `p` and its check digit when `p` is a valid payload, else the first error
/// found, in the order length, _Issuer Number_, _Issue Number_.
pub open spec fn payload_build_outcome(p: Seq<u8>, r: Result<CUSIP, CUSIPError>) -> bool {
    match r {
        Ok(c) => is_valid_payload(p) && c@ == p.push(check_byte(p)),
        Err(e) => if p.len() != 8 {
            e == (CUSIPError::InvalidPayloadLength { was: p.len() as usize })
        } else if !all_symbols(p.subrange(0, 6)) {
            e matches CUSIPError::InvalidIssuerNum { was } && was@ == p.subrange(0, 6)
        } else if !all_symbols(p.subrange(6, 8)) {
            e matches CUSIPError::InvalidIssueNum { was } && was@ == p.subrange(6, 8)
        } else {
            false
        },
    }
}

/// `r` is what building from the _Issuer Number_ bytes `i` and the _Issue
/// Number_ bytes `j` gives: the identifier of `i`, `j` and their check digit
/// when both are well formed, else the first error found, in the order
/// issuer length, issuer format, issue length, issue format.
pub open spec fn parts_build_outcome(
    i: Seq<u8>,
    j: Seq<u8>,
    r: Result<CUSIP, CUSIPError>,
) -> bool {
    match r {
        Ok(c) => i.len() == 6 && all_symbols(i) && j.len() == 2 && all_symbols(j) && c@ == (i
            + j).push(check_byte(i + j)),
        Err(e) => if i.len() != 6 {
            e == (CUSIPError::InvalidIssuerNumLength { was: i.len() as usize })
        } else if !all_symbols(i) {
            e matches CUSIPError::InvalidIssuerNum { was } && was@ == i
        } else if j.len() != 2 {
            e == (CUSIPError::InvalidIssueNumLength { was: j.len() as usize })
        } else if !all_symbols(j) {
            e matches CUSIPError::InvalidIssueNum { was } && was@ == j
        } else {
            false
        },
    }
}

proof fn lemma_symbols_split(b: Seq<u8>)
    requires
        b.len() == 9,
    ensures
        all_symbols(b.take(8)) <==> all_symbols(b.subrange(0, 6)) && all_symbols(
            b.subrange(6, 8),
        ),
{
    if all_symbols(b.subrange(0, 6)) && all_symbols(b.subrange(6, 8)) {
        assert forall|i: int| 0 <= i < 8 implies is_symbol(#[trigger] b.take(8)[i]) by {
            if i < 6 {
                assert(b.subrange(0, 6)[i] == b[i]);
            } else {
                assert(b.subrange(6, 8)[i - 6] == b[i]);
            }
        }
    }
    if all_symbols(b.take(8)) {
        assert forall|i: int| 0 <= i < 6 implies is_symbol(#[trigger] b.subrange(0, 6)[i]) by {
            assert(b.take(8)[i] == b[i]);
        }
        assert forall|i: int| 0 <= i < 2 implies is_symbol(#[trigger] b.subrange(6, 8)[i]) by {
            assert(b.take(8)[i + 6] == b[i + 6]);
        }
    }
}

/// The characters that loose parsing hands to strict parsing: `s` with ASCII
/// letters uppercased and leading and trailing white space removed.
pub open spec fn loose_text(s: Seq<char>) -> Seq<char> {
    trimmed_text(upper_text(s))
}

/// Whether the _Issuer Number_ of the CUSIP `b` is reserved for private use:
/// its fourth and fifth characters are both `9`, or it is all digits from
/// 990000 to 999999.
pub open spec fn private_issuer(b: Seq<u8>) -> bool {
    (b[3] == 57 && b[4] == 57) || (b[0] == 57 && b[1] == 57 && is_digit(b[2]) && is_digit(b[3])
        && is_digit(b[4]) && is_digit(b[5]))
}

/// Whether the _Issue Number_ of the CUSIP `b` is reserved for private use:
/// a `9` followed by a digit or by a letter from `A` to `Y`.
pub open spec fn private_issue(b: Seq<u8>) -> bool {
    b[6] == 57 && (is_digit(b[7]) || (65 <= b[7] <= 89))
}

/// A letter other than `I`, `O` and `Z`: a country code in use.
pub open spec fn is_base_country(b: u8) -> bool {
    is_upper(b) && b != 73 && b != 79 && b != 90
}

/// One of the letters `I`, `O` and `Z`, which are not in use as country codes.
pub open spec fn is_extended_country(b: u8) -> bool {
    b == 73 || b == 79 || b == 90
}

pub(crate) proof fn lemma_valid_is_ascii(b: Seq<u8>)
    requires
        is_valid_cusip(b),
    ensures
        all_ascii(b),
        forall|i: int| 0 <= i < 9 ==> is_symbol(#[trigger] b[i]),
        is_digit(b[8]),
{
    assert forall|i: int| 0 <= i < 9 implies is_symbol(#[trigger] b[i]) by {
        if i < 8 {
            assert(b.take(8)[i] == b[i]);
        }
    }
}

/// A CUSIP in confirmed valid format. The only ways to obtain one are the
/// validating entry points: parsing and building.
#[derive(Clone, Copy, PartialEq, Eq, PartialOrd, Ord, Hash, Debug)]
pub struct CUSIP([u8; 9]);

impl View for CUSIP {
    type V = Seq<u8>;

    closed spec fn view(&self) -> Seq<u8> {
        self.0@
    }
}

impl CUSIP {
    #[verifier::type_invariant]
    closed spec fn well_formed(self) -> bool {
        is_valid_cusip(self.0@)
    }

    /// Constructs a `CUSIP` from nine bytes: six for the _Issuer Number_, two
    /// for the _Issue Number_ and the _Check Digit_. Reports the first check
    /// that fails.
    pub fn from_bytes(bytes: &[u8]) -> (r: Result<Self, CUSIPError>)
        ensures
            parse_outcome(bytes@, r),
    {
        if bytes.len() != 9 {
            return Err(CUSIPError::InvalidCUSIPLength { was: bytes.len() });
        }
        proof {
            lemma_symbols_split(bytes@);
        }
        let issuer_num = vstd::slice::slice_subrange(bytes, 0, 6);
        validate_issuer_num_format(issuer_num)?;

        let issue_num = vstd::slice::slice_subrange(bytes, 6, 8);
        validate_issue_num_format(issue_num)?;

        let cd = bytes[8];
        validate_check_digit_format(cd)?;

        let payload = vstd::slice::slice_subrange(bytes, 0, 8);
        assert(payload@ == bytes@.take(8));
        let computed_check_digit = compute_check_digit(payload);

        if cd != computed_check_digit {
            return Err(CUSIPError::IncorrectCheckDigit { was: cd, expected: computed_check_digit });
        }
        let bb: [u8; 9] = [
            bytes[0],
            bytes[1],
            bytes[2],
            bytes[3],
            bytes[4],
            bytes[5],
            bytes[6],
            bytes[7],
            bytes[8],
        ];
        assert(bb@ =~= bytes@);
        Ok(CUSIP(bb))
    }

    /// Parses a string to a valid CUSIP or an error. The string must already
    /// be nine uppercase alphanumerics of the right shape, with no white space
    /// around them.
    pub fn parse(value: &str) -> (r: Result<CUSIP, CUSIPError>)
        ensures
            parse_outcome(value.spec_bytes(), r),
    {
        let bytes = value.as_bytes();
        Self::from_bytes(bytes)
    }

    /// Parses a string to a valid CUSIP or an error, after uppercasing its
    /// ASCII letters and removing leading and trailing white space.
    pub fn parse_loose(value: &str) -> (r: Result<CUSIP, CUSIPError>)
        ensures
            parse_outcome(encode_utf8(loose_text(value@)), r),
    {
        let uc = to_upper(value);
        let temp = trim(uc.as_str());
        Self::parse(temp)
    }

    /// The nine bytes of the CUSIP, which are always well formed.
    fn as_bytes(&self) -> (r: &[u8])
        ensures
            r@ == self@,
            is_valid_cusip(self@),
    {
        proof {
            use_type_invariant(self);
        }
        self.0.as_slice()
    }

    /// The nine bytes of the CUSIP as text.
    fn as_str(&self) -> (r: &str)
        ensures
            r@ == text_of(self@),
            is_valid_cusip(self@),
    {
        let b = self.as_bytes();
        proof {
            lemma_valid_is_ascii(self@);
        }
        ascii_str(b)
    }

    /// The canonical text of the CUSIP: its nine characters, exactly the
    /// bytes that were validated.
    pub fn to_string(&self) -> (r: String)
        ensures
            r@ == text_of(self@),
            is_valid_cusip(self@),
    {
        self.as_str().to_owned()
    }

    /// The CINS view of this CUSIP, when its first character is a letter.
    pub fn as_cins(&self) -> (r: Option<CINS<'_>>)
        ensures
            r is Some <==> is_upper(self@[0]),
            r matches Some(c) ==> c@ == self@,
    {
        CINS::new(self)
    }

    /// Whether this CUSIP is a CUSIP International Numbering System (CINS)
    /// number: whether its first character is a letter.
    pub fn is_cins(&self) -> (r: bool)
        ensures
            r == is_upper(self@[0]),
    {
        let b = self.as_bytes();
        proof {
            lemma_valid_is_ascii(self@);
        }
        is_cins(b[0])
    }

    /// Whether this CUSIP is a CINS number whose country code is a letter
    /// other than `I`, `O` and `Z`.
    pub fn is_cins_base(&self) -> (r: bool)
        ensures
            r == is_base_country(self@[0]),
    {
        let b = self.as_bytes();
        proof {
            lemma_valid_is_ascii(self@);
        }
        is_cins_base(b[0])
    }

    /// Whether this CUSIP is a CINS number whose country code is `I`, `O` or
    /// `Z`, which are not in use.
    pub fn is_cins_extended(&self) -> (r: bool)
        ensures
            r == is_extended_country(self@[0]),
    {
        let b = self.as_bytes();
        proof {
            lemma_valid_is_ascii(self@);
        }
        is_cins_extended(b[0])
    }

    /// The first character of the CUSIP when it is a CINS number, else `None`.
    pub fn cins_country_code(&self) -> (r: Option<char>)
        ensures
            r == (if is_upper(self@[0]) {
                Some(self@[0] as char)
            } else {
                None
            }),
    {
        let b = self.as_bytes();
        proof {
            lemma_valid_is_ascii(self@);
        }
        cins_country_code(b[0])
    }

    /// The _Issuer Number_: the first six characters.
    pub fn issuer_num(&self) -> (r: &str)
        ensures
            r@ == text_of(self@.subrange(0, 6)),
    {
        let b = self.as_bytes();
        proof {
            lemma_valid_is_ascii(self@);
        }
        ascii_str(vstd::slice::slice_subrange(b, 0, 6))
    }

    /// Whether the _Issuer Number_ is reserved for private use.
    pub fn has_private_issuer(&self) -> (r: bool)
        ensures
            r == private_issuer(self@),
    {
        let bs = self.as_bytes();
        // 57 is `9`
        let case1 = bs[3] == 57 && bs[4] == 57;
        let case2 = bs[0] == 57 && bs[1] == 57 && (48 <= bs[2] && bs[2] <= 57) && (48 <= bs[3]
            && bs[3] <= 57) && (48 <= bs[4] && bs[4] <= 57) && (48 <= bs[5] && bs[5] <= 57);
        case1 || case2
    }

    /// The _Issue Number_: the seventh and eighth characters.
    pub fn issue_num(&self) -> (r: &str)
        ensures
            r@ == text_of(self@.subrange(6, 8)),
    {
        let b = self.as_bytes();
        proof {
            lemma_valid_is_ascii(self@);
        }
        ascii_str(vstd::slice::slice_subrange(b, 6, 8))
    }

    /// Whether the _Issue Number_ is reserved for private use.
    pub fn is_private_issue(&self) -> (r: bool)
        ensures
            r == private_issue(self@),
    {
        let bs = self.as_bytes();
        let nine_tens = bs[6] == 57;
        let digit_ones = 48 <= bs[7] && bs[7] <= 57;
        // 65 is `A`, 89 is `Y`
        let letter_ones = 65 <= bs[7] && bs[7] <= 89;
        nine_tens && (digit_ones || letter_ones)
    }

    /// Whether the CUSIP is reserved for private use: it has a private issuer
    /// or is a private issue.
    pub fn is_private_use(&self) -> (r: bool)
        ensures
            r == (private_issuer(self@) || private_issue(self@)),
    {
        self.has_private_issuer() || self.is_private_issue()
    }

    /// The _Payload_: everything but the _Check Digit_.
    pub fn payload(&self) -> (r: &str)
        ensures
            r@ == text_of(self@.take(8)),
    {
        let b = self.as_bytes();
        proof {
            lemma_valid_is_ascii(self@);
        }
        ascii_str(vstd::slice::slice_subrange(b, 0, 8))
    }

    /// The _Check Digit_.
    pub fn check_digit(&self) -> (r: char)
        ensures
            r == self@[8] as char,
            is_digit(self@[8]),
    {
        let b = self.as_bytes();
        proof {
            lemma_valid_is_ascii(self@);
        }
        b[8] as char
    }
}

impl std::str::FromStr for CUSIP {
    type Err = CUSIPError;

    /// Parses loosely; see [`CUSIP::parse_loose`].
    fn from_str(s: &str) -> Result<Self, Self::Err> {
        Self::parse_loose(s)
    }
}

/// A CUSIP International Numbering System (CINS) view of a CUSIP whose first
/// character is a letter: a one-character country code, a five-character
/// issuer number and the shared two-character _Issue Number_.
#[derive(Clone, Copy, PartialEq, Eq, PartialOrd, Ord, Hash, Debug)]
pub struct CINS<'a>(&'a CUSIP);

impl<'a> View for CINS<'a> {
    type V = Seq<u8>;

    closed spec fn view(&self) -> Seq<u8> {
        self.0@
    }
}

impl<'a> CINS<'a> {
    #[verifier::type_invariant]
    closed spec fn starts_with_letter(self) -> bool {
        is_upper(self.0@[0])
    }

    /// The CINS view of `cusip`, when its first character is a letter.
    pub fn new(cusip: &'a CUSIP) -> (r: Option<Self>)
        ensures
            r is Some <==> is_upper(cusip@[0]),
            r matches Some(c) ==> c@ == cusip@,
    {
        if cusip.is_cins() {
            Some(CINS(cusip))
        } else {
            None
        }
    }

    /// The underlying CUSIP.
    pub fn as_cusip(&self) -> (r: &CUSIP)
        ensures
            r@ == self@,
            is_upper(self@[0]),
    {
        proof {
            use_type_invariant(self);
        }
        self.0
    }

    /// The country code: the first character, always a letter.
    pub fn country_code(&self) -> (r: char)
        ensures
            r == self@[0] as char,
            is_upper(self@[0]),
    {
        let b = self.as_cusip().as_bytes();
        b[0] as char
    }

    /// Whether the country code is a letter other than `I`, `O` and `Z`.
    pub fn is_base(&self) -> (r: bool)
        ensures
            r == is_base_country(self@[0]),
    {
        self.as_cusip().is_cins_base()
    }

    /// Whether the country code is `I`, `O` or `Z`, which are not in use.
    pub fn is_extended(&self) -> (r: bool)
        ensures
            r == is_extended_country(self@[0]),
    {
        self.as_cusip().is_cins_extended()
    }

    /// The CINS issuer number: the five characters after the country code.
    pub fn issuer_num(&self) -> (r: &str)
        ensures
            r@ == text_of(self@.subrange(1, 6)),
    {
        let b = self.as_cusip().as_bytes();
        proof {
            lemma_valid_is_ascii(self@);
        }
        ascii_str(vstd::slice::slice_subrange(b, 1, 6))
    }

    /// The _Issue Number_: the seventh and eighth characters.
    pub fn issue_num(&self) -> (r: &str)
        ensures
            r@ == text_of(self@.subrange(6, 8)),
    {
        self.as_cusip().issue_num()
    }
}

/// Whether the first byte of a CUSIP makes it a CINS number.
fn is_cins(byte: u8) -> (r: bool)
    requires
        is_symbol(byte),
    ensures
        r == is_upper(byte),
{
    !(48 <= byte && byte <= 57)
}

/// Whether the first byte of a CUSIP is a country code in use.
fn is_cins_base(byte: u8) -> (r: bool)
    requires
        is_symbol(byte),
    ensures
        r == is_base_country(byte),
{
    // 73 is `I`, 79 is `O`, 90 is `Z`
    !(48 <= byte && byte <= 57) && byte != 73 && byte != 79 && byte != 90
}

/// Whether the first byte of a CUSIP is a country code not in use.
fn is_cins_extended(byte: u8) -> (r: bool)
    requires
        is_symbol(byte),
    ensures
        r == is_extended_country(byte),
{
    byte == 73 || byte == 79 || byte == 90
}

/// The country code that the first byte of a CUSIP gives, if it is a letter.
fn cins_country_code(byte: u8) -> (r: Option<char>)
    requires
        is_symbol(byte),
    ensures
        r == (if is_upper(byte) {
            Some(byte as char)
        } else {
            None
        }),
{
    if 48 <= byte && byte <= 57 {
        None
    } else {
        Some(byte as char)
    }
}

/// Parses a string to a valid CUSIP or an error; see [`CUSIP::parse`].
pub fn parse(value: &str) -> (r: Result<CUSIP, CUSIPError>)
    ensures
        parse_outcome(value.spec_bytes(), r),
{
    CUSIP::parse(value)
}

/// Parses a string to a valid CUSIP or an error, allowing white space around
/// it and lowercase letters; see [`CUSIP::parse_loose`].
pub fn parse_loose(value: &str) -> (r: Result<CUSIP, CUSIPError>)
    ensures
        parse_outcome(encode_utf8(loose_text(value@)), r),
{
    CUSIP::parse_loose(value)
}

/// Builds a CUSIP from a _Payload_ (an _Issuer Number_ followed by an _Issue
/// Number_). The _Check Digit_ is computed.
pub fn build_from_payload(payload: &str) -> (r: Result<CUSIP, CUSIPError>)
    ensures
        payload_build_outcome(payload.spec_bytes(), r),
{
    let b = payload.as_bytes();
    if b.len() != 8 {
        return Err(CUSIPError::InvalidPayloadLength { was: b.len() });
    }
    let issuer_num = vstd::slice::slice_subrange(b, 0, 6);
    validate_issuer_num_format(issuer_num)?;

    let issue_num = vstd::slice::slice_subrange(b, 6, 8);
    validate_issue_num_format(issue_num)?;

    proof {
        assert(b@.push(0).take(8) =~= b@);
        lemma_symbols_split(b@.push(0));
        assert(b@.push(0).subrange(0, 6) =~= b@.subrange(0, 6));
        assert(b@.push(0).subrange(6, 8) =~= b@.subrange(6, 8));
    }
    let cd = compute_check_digit(b);
    let bb: [u8; 9] = [b[0], b[1], b[2], b[3], b[4], b[5], b[6], b[7], cd];
    assert(bb@ =~= b@.push(check_byte(b@)));
    proof {
        assert(bb@.take(8) =~= b@);
    }
    Ok(CUSIP(bb))
}

/// Builds a CUSIP from its parts: an _Issuer Number_ and an _Issue Number_.
/// The _Check Digit_ is computed.
pub fn build_from_parts(issuer_num: &str, issue_num: &str) -> (r: Result<CUSIP, CUSIPError>)
    ensures
        parts_build_outcome(issuer_num.spec_bytes(), issue_num.spec_bytes(), r),
{
    let i = issuer_num.as_bytes();
    if i.len() != 6 {
        return Err(CUSIPError::InvalidIssuerNumLength { was: i.len() });
    }
    validate_issuer_num_format(i)?;

    let j = issue_num.as_bytes();
    if j.len() != 2 {
        return Err(CUSIPError::InvalidIssueNumLength { was: j.len() });
    }
    validate_issue_num_format(j)?;

    let payload: [u8; 8] = [i[0], i[1], i[2], i[3], i[4], i[5], j[0], j[1]];
    proof {
        assert(payload@ =~= i@ + j@);
        assert forall|k: int| 0 <= k < 8 implies is_symbol(#[trigger] payload@[k]) by {
            if k < 6 {
                assert(payload@[k] == i@[k]);
            } else {
                assert(payload@[k] == j@[k - 6]);
            }
        }
    }
    let cd = compute_check_digit(payload.as_slice());
    let bb: [u8; 9] = [i[0], i[1], i[2], i[3], i[4], i[5], j[0], j[1], cd];
    assert(bb@ =~= (i@ + j@).push(check_byte(i@ + j@)));
    proof {
        assert(bb@.take(8) =~= i@ + j@);
    }
    Ok(CUSIP(bb))
}

/// Whether the string is a valid CUSIP: whether strict parsing would succeed.
pub fn validate(value: &str) -> (r: bool)
    ensures
        r == is_valid_cusip(value.spec_bytes()),
{
    let b = value.as_bytes();
    if b.len() != 9 {
        return false;
    }
    proof {
        lemma_symbols_split(b@);
    }
    let issuer_num = vstd::slice::slice_subrange(b, 0, 6);
    if validate_issuer_num_format(issuer_num).is_err() {
        return false;
    }
    let issue_num = vstd::slice::slice_subrange(b, 6, 8);
    if validate_issue_num_format(issue_num).is_err() {
        return false;
    }
    let check_digit = b[8];
    if validate_check_digit_format(check_digit).is_err() {
        return false;
    }
    let payload = vstd::slice::slice_subrange(b, 0, 8);
    assert(payload@ == b@.take(8));
    let computed_check_digit = compute_check_digit(payload);
    let incorrect_check_digit = check_digit != computed_check_digit;
    !incorrect_check_digit
}

/// Computes the _Check Digit_ of a sequence of symbols, as an ASCII digit. No
/// attempt is made to hold the input to the payload format or length; every
/// byte must be a symbol. On a payload, and on any input of even length, this
/// is the digit of the standard's rule.
pub fn compute_check_digit(s: &[u8]) -> (r: u8)
    requires
        all_symbols(s@),
    ensures
        r as nat == 48 + reverse_check_value(s@),
        s@.len() % 2 == 0 ==> r == check_byte(s@),
{
    let sum = checksum_table(s);
    48 + sum
}

} // verus!
