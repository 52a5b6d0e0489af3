//! Laws that relate the operations of the library to one another.

use vstd::prelude::*;
use vstd::utf8::{encode_utf8, is_ascii_chars, is_ascii_chars_encode_utf8};
use crate::checksum::reverse_check_value;
use crate::error::CUSIPError;
use crate::format::is_symbol;
use crate::identifier::{
    CUSIP, is_valid_cusip, lemma_valid_is_ascii, is_valid_payload, loose_text, parse_outcome, payload_build_outcome,
};
use crate::text::{
    all_ascii, is_white_space, text_of, trim_end_text, trim_start_text, trimmed_text, upper_text,
};

verus! {

/// The UTF-8 encoding of the text of ASCII bytes is those bytes.
proof fn lemma_encode_text(b: Seq<u8>)
    requires
        all_ascii(b),
    ensures
        is_ascii_chars(text_of(b)),
        encode_utf8(text_of(b)) == b,
{
    let t = text_of(b);
    assert(is_ascii_chars(t));
    is_ascii_chars_encode_utf8(t);
    assert(encode_utf8(t) =~= b);
}

proof fn lemma_parse_valid(v: Seq<u8>)
    requires
        is_valid_cusip(v),
    ensures
        forall|r: Result<CUSIP, CUSIPError>| #[trigger]
            parse_outcome(v, r) ==> (r is Ok && r->Ok_0@ == v),
{
    lemma_valid_is_ascii(v);
    assert(v.take(8).len() == 8);
    assert forall|r: Result<CUSIP, CUSIPError>| #[trigger]
        parse_outcome(v, r) implies (r is Ok && r->Ok_0@ == v) by {
        if r is Err {
            assert forall|i: int| 0 <= i < 6 implies is_symbol(#[trigger] v.subrange(0, 6)[i]) by {
                assert(v.subrange(0, 6)[i] == v[i]);
            }
            assert forall|i: int| 0 <= i < 2 implies is_symbol(#[trigger] v.subrange(6, 8)[i]) by {
                assert(v.subrange(6, 8)[i] == v[i + 6]);
            }
        }
    }
}

/// Parsing the canonical text of any well-formed CUSIP `v` gives `v` back:
/// the UTF-8 bytes of its text are its bytes, and strict parsing of them
/// succeeds with an identifier whose bytes are `v`.
pub proof fn lemma_parse_round_trip(v: Seq<u8>)
    requires
        is_valid_cusip(v),
    ensures
        encode_utf8(text_of(v)) == v,
        forall|r: Result<CUSIP, CUSIPError>| #[trigger]
            parse_outcome(encode_utf8(text_of(v)), r) ==> (r is Ok && r->Ok_0@ == v),
{
    lemma_valid_is_ascii(v);
    lemma_encode_text(v);
    lemma_parse_valid(v);
}

/// Building from any valid payload `p` succeeds; the payload of the result, as
/// bytes, is `p`, and its check digit is the digit that `compute_check_digit`
/// gives for `p`.
pub proof fn lemma_build_from_payload_consistent(p: Seq<u8>)
    requires
        is_valid_payload(p),
    ensures
        forall|r: Result<CUSIP, CUSIPError>| #[trigger]
            payload_build_outcome(p, r) ==> {
                &&& r is Ok
                &&& encode_utf8(text_of(r->Ok_0@.take(8))) == p
                &&& r->Ok_0@[8] as nat == 48 + reverse_check_value(p)
            },
{
    assert(all_ascii(p));
    lemma_encode_text(p);
    crate::checksum::lemma_checksums_agree(p);
    assert forall|r: Result<CUSIP, CUSIPError>| #[trigger]
        payload_build_outcome(p, r) implies {
        &&& r is Ok
        &&& encode_utf8(text_of(r->Ok_0@.take(8))) == p
        &&& r->Ok_0@[8] as nat == 48 + reverse_check_value(p)
    } by {
        if r is Err {
            assert forall|i: int| 0 <= i < 6 implies is_symbol(#[trigger] p.subrange(0, 6)[i]) by {
                assert(p.subrange(0, 6)[i] == p[i]);
            }
            assert forall|i: int| 0 <= i < 2 implies is_symbol(#[trigger] p.subrange(6, 8)[i]) by {
                assert(p.subrange(6, 8)[i] == p[i + 6]);
            }
        } else {
            assert(r->Ok_0@.take(8) =~= p);
        }
    }
}

/// Every character of `s` is white space.
pub open spec fn all_white(s: Seq<char>) -> bool {
    forall|i: int| 0 <= i < s.len() ==> is_white_space(#[trigger] s[i])
}

proof fn lemma_trim_start_white(pre: Seq<char>, x: Seq<char>)
    requires
        all_white(pre),
    ensures
        trim_start_text(pre + x) == trim_start_text(x),
    decreases pre.len(),
{
    if pre.len() > 0 {
        assert((pre + x).first() == pre[0]);
        assert((pre + x).drop_first() =~= pre.drop_first() + x);
        lemma_trim_start_white(pre.drop_first(), x);
    } else {
        assert(pre + x =~= x);
    }
}

proof fn lemma_trim_end_white(x: Seq<char>, post: Seq<char>)
    requires
        all_white(post),
    ensures
        trim_end_text(x + post) == trim_end_text(x),
    decreases post.len(),
{
    if post.len() > 0 {
        assert((x + post).last() == post.last());
        assert((x + post).drop_last() =~= x + post.drop_last());
        lemma_trim_end_white(x, post.drop_last());
    } else {
        assert(x + post =~= x);
    }
}

/// Loose parsing of the text of any well-formed CUSIP `v`, written in any
/// ASCII case and with any white space before and after it, gives `v`. In
/// particular loose parsing of the canonical text gives `v` back.
pub proof fn lemma_parse_loose_normalizes(
    v: Seq<u8>,
    s: Seq<char>,
    pre: Seq<char>,
    post: Seq<char>,
)
    requires
        is_valid_cusip(v),
        upper_text(s) == upper_text(text_of(v)),
        all_white(pre),
        all_white(post),
    ensures
        loose_text(pre + s + post) == text_of(v),
        forall|r: Result<CUSIP, CUSIPError>| #[trigger]
            parse_outcome(encode_utf8(loose_text(pre + s + post)), r) ==> (r is Ok && r->Ok_0@
                == v),
{
    let t = text_of(v);
    lemma_valid_is_ascii(v);
    assert(upper_text(t) =~= t);
    assert(upper_text(pre) =~= pre);
    assert(upper_text(post) =~= post);
    assert(upper_text(pre + s + post) =~= upper_text(pre) + upper_text(s) + upper_text(post));
    assert(upper_text(pre + s + post) =~= pre + (t + post));
    lemma_trim_start_white(pre, t + post);
    assert(!is_white_space((t + post).first()));
    assert(trim_start_text(t + post) == t + post);
    lemma_trim_end_white(t, post);
    assert(!is_white_space(t.last()));
    assert(trim_end_text(t) == t);
    assert(trimmed_text(pre + (t + post)) == t);
    lemma_parse_round_trip(v);
}

} // verus!
