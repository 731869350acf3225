//! Detecting whether a server advertises support for byte ranges.
//!
//! A server does so with an `Accept-Ranges` header whose value is a
//! comma-separated list that names the unit `bytes`. Items are compared after
//! blanks at either end are dropped, and exactly: `Bytes` is another unit.

use crate::header::{
    accept_ranges_of, accept_ranges_value, header_entries, is_text, value_text,
};
use reqwest::header::HeaderMap;
use vstd::prelude::*;

verus! {

/// The byte that separates the items of a list.
pub const COMMA: u8 = 44;

/// The blanks that header text can hold: space and tab.
pub open spec fn is_blank(b: u8) -> bool {
    b == 32 || b == 9
}

/// The range unit `bytes`, as bytes.
pub open spec fn bytes_unit() -> Seq<u8> {
    seq![98u8, 121u8, 116u8, 101u8, 115u8]
}

/// `list[from..to]` is one item of the comma-separated `list`: it starts at the
/// start of the list or after a comma, ends at the end of the list or before a
/// comma, and holds no comma.
pub open spec fn is_item(list: Seq<u8>, from: int, to: int) -> bool {
    &&& 0 <= from <= to <= list.len()
    &&& (from == 0 || list[from - 1] == COMMA)
    &&& (to == list.len() || list[to] == COMMA)
    &&& forall|k: int| from <= k < to ==> list[k] != COMMA
}

/// `item` without the blanks at its start.
pub open spec fn trim_start(item: Seq<u8>) -> Seq<u8>
    decreases item.len(),
{
    if item.len() > 0 && is_blank(item[0]) {
        trim_start(item.drop_first())
    } else {
        item
    }
}

/// `item` without the blanks at its end.
pub open spec fn trim_end(item: Seq<u8>) -> Seq<u8>
    decreases item.len(),
{
    if item.len() > 0 && is_blank(item.last()) {
        trim_end(item.drop_last())
    } else {
        item
    }
}

/// `item` without the blanks at either end.
pub open spec fn trimmed(item: Seq<u8>) -> Seq<u8> {
    trim_end(trim_start(item))
}

/// Some item of the comma-separated `list` is `unit` once trimmed.
pub open spec fn lists_unit(list: Seq<u8>, unit: Seq<u8>) -> bool {
    exists|from: int, to: int| is_item(list, from, to) && trimmed(list.subrange(from, to)) == unit
}

/// What an `Accept-Ranges` header says of byte ranges: they are supported when
/// the header is there, its value is text, and the list in it names `bytes`.
pub open spec fn advertises_byte_ranges(value: Option<Seq<u8>>) -> bool {
    match value {
        Some(v) => is_text(v) && lists_unit(v, bytes_unit()),
        None => false,
    }
}

/// Dropping `n` leading blanks, where the byte after them is none, is what
/// `trim_start` does.
proof fn lemma_trim_start(item: Seq<u8>, n: int)
    requires
        0 <= n <= item.len(),
        forall|k: int| 0 <= k < n ==> is_blank(item[k]),
        n == item.len() || !is_blank(item[n]),
    ensures
        trim_start(item) == item.subrange(n, item.len() as int),
    decreases n,
{
    if n == 0 {
        assert(item.subrange(0, item.len() as int) =~= item);
    } else {
        let rest = item.drop_first();
        assert forall|k: int| 0 <= k < n - 1 implies is_blank(rest[k]) by {
            assert(rest[k] == item[k + 1]);
        }
        lemma_trim_start(rest, n - 1);
        assert(rest.subrange(n - 1, rest.len() as int) =~= item.subrange(n, item.len() as int));
    }
}

/// Keeping the first `n` bytes, where all after them are blanks and the last
/// kept is none, is what `trim_end` does.
proof fn lemma_trim_end(item: Seq<u8>, n: int)
    requires
        0 <= n <= item.len(),
        forall|k: int| n <= k < item.len() ==> is_blank(item[k]),
        n == 0 || !is_blank(item[n - 1]),
    ensures
        trim_end(item) == item.subrange(0, n),
    decreases item.len() - n,
{
    if n == item.len() {
        assert(item.subrange(0, n) =~= item);
    } else {
        let rest = item.drop_last();
        lemma_trim_end(rest, n);
        assert(rest.subrange(0, n) =~= item.subrange(0, n));
    }
}

/// The number of blanks at the start of `item`.
proof fn leading_blanks(item: Seq<u8>) -> (n: int)
    ensures
        0 <= n <= item.len(),
        forall|k: int| 0 <= k < n ==> is_blank(item[k]),
        n == item.len() || !is_blank(item[n]),
    decreases item.len(),
{
    if item.len() > 0 && is_blank(item[0]) {
        let rest = item.drop_first();
        let m = leading_blanks(rest);
        assert forall|k: int| 0 <= k < m + 1 implies is_blank(item[k]) by {
            if k > 0 {
                assert(item[k] == rest[k - 1]);
            }
        }
        if m + 1 < item.len() {
            assert(item[m + 1] == rest[m]);
        }
        m + 1
    } else {
        0
    }
}

/// The number of bytes of `item` before the blanks at its end.
proof fn before_trailing_blanks(item: Seq<u8>) -> (n: int)
    ensures
        0 <= n <= item.len(),
        forall|k: int| n <= k < item.len() ==> is_blank(item[k]),
        n == 0 || !is_blank(item[n - 1]),
    decreases item.len(),
{
    if item.len() > 0 && is_blank(item.last()) {
        let rest = item.drop_last();
        let m = before_trailing_blanks(rest);
        assert forall|k: int| m <= k < item.len() implies is_blank(item[k]) by {
            if k < item.len() - 1 {
                assert(item[k] == rest[k]);
            }
        }
        if m > 0 {
            assert(item[m - 1] == rest[m - 1]);
        }
        m
    } else {
        item.len() as int
    }
}

/// What trimming keeps: `item` is blanks, then `trimmed(item)`, then blanks, and
/// what is kept neither starts nor ends with a blank. The bounds returned are
/// those of the part that is kept.
pub proof fn trimmed_is_the_core(item: Seq<u8>) -> (bounds: (int, int))
    ensures
        0 <= bounds.0 <= bounds.1 <= item.len(),
        trimmed(item) == item.subrange(bounds.0, bounds.1),
        forall|k: int| 0 <= k < bounds.0 ==> is_blank(item[k]),
        forall|k: int| bounds.1 <= k < item.len() ==> is_blank(item[k]),
        bounds.0 < bounds.1 ==> !is_blank(item[bounds.0]) && !is_blank(item[bounds.1 - 1]),
{
    let start = leading_blanks(item);
    lemma_trim_start(item, start);
    let tail = item.subrange(start, item.len() as int);
    let kept = before_trailing_blanks(tail);
    lemma_trim_end(tail, kept);
    assert(tail.subrange(0, kept) =~= item.subrange(start, start + kept));
    assert forall|k: int| start + kept <= k < item.len() implies is_blank(item[k]) by {
        assert(item[k] == tail[k - start]);
    }
    if kept > 0 {
        assert(item[start + kept - 1] == tail[kept - 1]);
        assert(item[start] == tail[0]);
    }
    (start, start + kept)
}

/// A list without a comma is one item: it names `unit` exactly when it is
/// `unit` once trimmed.
pub proof fn list_of_one_item(list: Seq<u8>, unit: Seq<u8>)
    requires
        forall|k: int| 0 <= k < list.len() ==> list[k] != COMMA,
    ensures
        lists_unit(list, unit) <==> trimmed(list) == unit,
{
    assert(list.subrange(0, list.len() as int) =~= list);
    assert(is_item(list, 0, list.len() as int));
    if lists_unit(list, unit) {
        let (from, to) = choose|from: int, to: int|
            is_item(list, from, to) && trimmed(list.subrange(from, to)) == unit;
        if from > 0 {
            assert(list[from - 1] == COMMA);
        }
        if to < list.len() {
            assert(list[to] == COMMA);
        }
    }
}

/// Two lists with a comma between them name `unit` exactly when one of them
/// does: the items of the whole are the items of the two.
pub proof fn list_of_two_lists(first: Seq<u8>, second: Seq<u8>, unit: Seq<u8>)
    ensures
        lists_unit(first + seq![COMMA] + second, unit) <==> lists_unit(first, unit) || lists_unit(
            second,
            unit,
        ),
{
    let whole = first + seq![COMMA] + second;
    let shift = first.len() + 1;
    assert(whole[first.len() as int] == COMMA);
    if lists_unit(first, unit) {
        let (from, to) = choose|from: int, to: int|
            is_item(first, from, to) && trimmed(first.subrange(from, to)) == unit;
        assert(whole.subrange(from, to) =~= first.subrange(from, to));
        assert(is_item(whole, from, to)) by {
            assert forall|k: int| from <= k < to implies whole[k] != COMMA by {
                assert(whole[k] == first[k]);
            }
            if from > 0 {
                assert(whole[from - 1] == first[from - 1]);
            }
            if to < first.len() {
                assert(whole[to] == first[to]);
            }
        }
    }
    if lists_unit(second, unit) {
        let (from, to) = choose|from: int, to: int|
            is_item(second, from, to) && trimmed(second.subrange(from, to)) == unit;
        assert(whole.subrange(from + shift, to + shift) =~= second.subrange(from, to));
        assert(is_item(whole, from + shift, to + shift)) by {
            assert forall|k: int| from + shift <= k < to + shift implies whole[k] != COMMA by {
                assert(whole[k] == second[k - shift]);
            }
            if from > 0 {
                assert(whole[from + shift - 1] == second[from - 1]);
            }
            if to < second.len() {
                assert(whole[to + shift] == second[to]);
            }
        }
    }
    if lists_unit(whole, unit) {
        let (from, to) = choose|from: int, to: int|
            is_item(whole, from, to) && trimmed(whole.subrange(from, to)) == unit;
        if to <= first.len() {
            assert(whole.subrange(from, to) =~= first.subrange(from, to));
            assert(is_item(first, from, to)) by {
                assert forall|k: int| from <= k < to implies first[k] != COMMA by {
                    assert(whole[k] == first[k]);
                }
                if from > 0 {
                    assert(whole[from - 1] == first[from - 1]);
                }
                if to < first.len() {
                    assert(whole[to] == first[to]);
                }
            }
        } else {
            assert(from >= shift) by {
                if from < shift {
                    assert(whole[first.len() as int] != COMMA);
                }
            }
            assert(whole.subrange(from, to) =~= second.subrange(from - shift, to - shift));
            assert(is_item(second, from - shift, to - shift)) by {
                assert forall|k: int| from - shift <= k < to - shift implies second[k]
                    != COMMA by {
                    assert(whole[k + shift] == second[k]);
                }
                if from > shift {
                    assert(whole[from - 1] == second[from - shift - 1]);
                }
                if to < whole.len() {
                    assert(whole[to] == second[to - shift]);
                }
            }
        }
    }
}

/// Where the item that starts at `from` ends: at the first comma at or after
/// `from`, or at the end of the list.
fn item_end(list: &[u8], from: usize) -> (to: usize)
    requires
        from <= list@.len(),
    ensures
        from <= to <= list@.len(),
        to == list@.len() || list@[to as int] == COMMA,
        forall|k: int| from <= k < to ==> list@[k] != COMMA,
{
    let mut to: usize = from;
    while to < list.len() && list[to] != COMMA
        invariant
            from <= to <= list@.len(),
            forall|k: int| from <= k < to ==> list@[k] != COMMA,
        decreases list@.len() - to,
    {
        to = to + 1;
    }
    to
}

/// The bounds of `list[from..to]` without the blanks at either end.
fn trim_bounds(list: &[u8], from: usize, to: usize) -> (bounds: (usize, usize))
    requires
        from <= to <= list@.len(),
    ensures
        from <= bounds.0 <= bounds.1 <= to,
        list@.subrange(bounds.0 as int, bounds.1 as int) == trimmed(
            list@.subrange(from as int, to as int),
        ),
{
    let ghost item = list@.subrange(from as int, to as int);
    let mut start: usize = from;
    while start < to && (list[start] == 32 || list[start] == 9)
        invariant
            from <= start <= to <= list@.len(),
            forall|k: int| from <= k < start ==> is_blank(list@[k]),
        decreases to - start,
    {
        start = start + 1;
    }
    let mut end: usize = to;
    while end > start && (list[end - 1] == 32 || list[end - 1] == 9)
        invariant
            start <= end <= to <= list@.len(),
            forall|k: int| end <= k < to ==> is_blank(list@[k]),
        decreases end - start,
    {
        end = end - 1;
    }
    proof {
        lemma_trim_start(item, start - from);
        let tail = item.subrange(start - from, item.len() as int);
        assert(tail =~= list@.subrange(start as int, to as int));
        lemma_trim_end(tail, end - start);
        assert(tail.subrange(0, end - start) =~= list@.subrange(start as int, end as int));
    }
    (start, end)
}

/// Whether `list[from..to]` is the unit `bytes`.
fn is_bytes_unit(list: &[u8], from: usize, to: usize) -> (same: bool)
    requires
        from <= to <= list@.len(),
    ensures
        same == (list@.subrange(from as int, to as int) == bytes_unit()),
{
    let ghost part = list@.subrange(from as int, to as int);
    if to - from != 5 {
        assert(part.len() != bytes_unit().len());
        return false;
    }
    let same = list[from] == 98 && list[from + 1] == 121 && list[from + 2] == 116 && list[from + 3]
        == 101 && list[from + 4] == 115;
    proof {
        assert(part[0] == list@[from + 0]);
        assert(part[1] == list@[from + 1]);
        assert(part[2] == list@[from + 2]);
        assert(part[3] == list@[from + 3]);
        assert(part[4] == list@[from + 4]);
        if same {
            assert(part =~= bytes_unit());
        }
    }
    same
}

/// Whether the comma-separated `list` names the range unit `bytes`.
///
/// Each item is taken without the blanks at its ends and compared byte for
/// byte, so `bytes, identity` and ` bytes ` name it, and `Bytes`, `none` and an
/// empty list do not.
pub fn lists_bytes(list: &[u8]) -> (found: bool)
    ensures
        found == lists_unit(list@, bytes_unit()),
{
    let mut from: usize = 0;
    loop
        invariant
            from <= list@.len(),
            from == 0 || list@[from - 1] == COMMA,
            forall|a: int, b: int|
                is_item(list@, a, b) && a < from ==> trimmed(list@.subrange(a, b)) != bytes_unit(),
        decreases list@.len() - from,
    {
        let to = item_end(list, from);
        let (start, end) = trim_bounds(list, from, to);
        assert(is_item(list@, from as int, to as int));
        if is_bytes_unit(list, start, end) {
            return true;
        }
        assert forall|a: int, b: int| is_item(list@, a, b) && a <= to implies trimmed(
            list@.subrange(a, b),
        ) != bytes_unit() by {
            if a == from {
                if b < to {
                    assert(list@[b] == COMMA);
                } else if b > to {
                    assert(list@[to as int] == COMMA);
                }
            } else if a > from {
                assert(list@[a - 1] == COMMA);
            }
        }
        if to == list.len() {
            return false;
        }
        from = to + 1;
    }
}

/// Whether a response with these headers comes from a server that advertises
/// support for byte ranges.
///
/// That is so when an `Accept-Ranges` header is there, its value is text, and
/// the comma-separated list in it names `bytes`. A value that is not text counts
/// as no support; nothing here fails.
pub fn accepts_byte_ranges(headers: &HeaderMap) -> (accepts: bool)
    ensures
        accepts == advertises_byte_ranges(accept_ranges_of(header_entries(*headers))),
{
    match accept_ranges_value(headers) {
        None => false,
        Some(value) => match value_text(value) {
            None => false,
            Some(text) => lists_bytes(text),
        },
    }
}

} // verus!
