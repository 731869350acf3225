//! The `Range` header of a resumed request: `bytes=<offset>-`, an open-ended
//! range from the first byte that is still missing.

use crate::header::{
    header_entries, insert_range, is_value, is_value_byte, new_header_map, range_name,
    value_of_bytes,
};
use reqwest::header::HeaderMap;
use vstd::prelude::*;

verus! {

/// The byte that ends an open-ended range.
pub const DASH: u8 = 45;

/// The decimal digit `d` in ASCII.
pub open spec fn digit(d: nat) -> u8
    recommends
        d < 10,
{
    (48 + d) as u8
}

/// `n` in decimal, without leading zeros.
pub open spec fn decimal(n: nat) -> Seq<u8>
    decreases n,
{
    if n < 10 {
        seq![digit(n)]
    } else {
        decimal(n / 10).push(digit(n % 10))
    }
}

/// The text `bytes=`.
pub open spec fn range_prefix() -> Seq<u8> {
    seq![98u8, 121u8, 116u8, 101u8, 115u8, 61u8]
}

/// The value of a `Range` header that asks for everything from byte `pos` on.
pub open spec fn range_from(pos: nat) -> Seq<u8> {
    range_prefix() + decimal(pos) + seq![DASH]
}

/// The headers of a request that resumes at byte `pos`: the `Range` header and
/// nothing else.
pub open spec fn resume_entries(pos: nat) -> Map<Seq<char>, Seq<u8>> {
    Map::<Seq<char>, Seq<u8>>::empty().insert(range_name(), range_from(pos))
}

/// The number that decimal digits stand for.
pub open spec fn decimal_value(digits: Seq<u8>) -> nat
    decreases digits.len(),
{
    if digits.len() == 0 {
        0
    } else {
        (decimal_value(digits.drop_last()) * 10 + (digits.last() - 48)) as nat
    }
}

/// The offset that a `Range` header of the form `bytes=<digits>-` names.
pub open spec fn offset_named(value: Seq<u8>) -> nat
    recommends
        value.len() >= 7,
{
    decimal_value(value.subrange(6, value.len() - 1))
}

/// Writing a number in decimal loses nothing: the digits stand for the number.
pub proof fn lemma_decimal_value(n: nat)
    ensures
        decimal_value(decimal(n)) == n,
    decreases n,
{
    if n < 10 {
        assert(decimal(n).drop_last() =~= Seq::<u8>::empty());
        assert(decimal_value(decimal(n).drop_last()) == 0);
    } else {
        lemma_decimal_value(n / 10);
        assert(decimal(n).drop_last() =~= decimal(n / 10));
    }
}

/// A `Range` header made here names its offset and no other: it is `bytes=`,
/// digits that stand for the offset, and a dash. So the headers for two offsets
/// are the same only when the offsets are.
pub proof fn range_names_its_offset(pos: nat)
    ensures
        range_from(pos).len() == decimal(pos).len() + 7,
        range_from(pos).subrange(0, 6) == range_prefix(),
        range_from(pos).last() == DASH,
        offset_named(range_from(pos)) == pos,
{
    lemma_decimal_value(pos);
    let value = range_from(pos);
    assert(value.subrange(0, 6) =~= range_prefix());
    assert(value.subrange(6, value.len() - 1) =~= decimal(pos));
}

/// A number in decimal is made of digits, and of at least one.
pub proof fn lemma_decimal_digits(n: nat)
    ensures
        decimal(n).len() >= 1,
        forall|i: int| 0 <= i < decimal(n).len() ==> 48 <= #[trigger] decimal(n)[i] <= 57,
    decreases n,
{
    if n >= 10 {
        lemma_decimal_digits(n / 10);
    }
}

/// A header value can hold the text of every `Range` header made here.
pub proof fn lemma_range_from_is_value(pos: nat)
    ensures
        is_value(range_from(pos)),
{
    lemma_decimal_digits(pos);
    let value = range_from(pos);
    let number = decimal(pos);
    assert forall|i: int| 0 <= i < value.len() implies is_value_byte(#[trigger] value[i]) by {
        if 6 <= i < 6 + number.len() {
            assert(value[i] == number[i - 6]);
        }
    }
}

/// Appends `n` in decimal to `out`.
fn push_decimal(out: &mut Vec<u8>, n: u64)
    ensures
        final(out)@ == old(out)@ + decimal(n as nat),
    decreases n,
{
    if n >= 10 {
        push_decimal(out, n / 10);
    }
    let low: u8 = (n % 10) as u8;
    out.push(48 + low);
    assert(out@ =~= old(out)@ + decimal(n as nat));
}

/// The value of the `Range` header for a request that resumes at byte `pos`:
/// `bytes=`, the offset in decimal, and a dash.
pub fn range_value(pos: u64) -> (value: Vec<u8>)
    ensures
        value@ == range_from(pos as nat),
{
    let mut value: Vec<u8> = vec![98u8, 121u8, 116u8, 101u8, 115u8, 61u8];
    assert(value@ =~= range_prefix());
    push_decimal(&mut value, pos);
    value.push(DASH);
    assert(value@ =~= range_from(pos as nat));
    value
}

/// The headers to send with the request that resumes a download at byte `pos`:
/// `Range: bytes=<pos>-` and nothing else.
pub fn resume_headers(pos: u64) -> (headers: HeaderMap)
    ensures
        header_entries(headers) == resume_entries(pos as nat),
{
    let value = range_value(pos);
    proof {
        lemma_range_from_is_value(pos as nat);
    }
    let mut headers = new_header_map();
    insert_range(&mut headers, value_of_bytes(value.as_slice()));
    headers
}

} // verus!
