//! Finding where an item first stands in a sequence.

use vstd::prelude::*;

verus! {

/// The position of the first `wanted` in `items` at or behind `from`, or the length of
/// `items` where there is none.
pub open spec fn first_index<T>(items: Seq<T>, wanted: T, from: int) -> int
    decreases items.len() - from,
{
    if from < 0 || from >= items.len() {
        items.len() as int
    } else if items[from] == wanted {
        from
    } else {
        first_index(items, wanted, from + 1)
    }
}

/// Where no `wanted` stands between `from` and `to`, the search may as well start at
/// `to`.
pub proof fn lemma_first_index_skips<T>(items: Seq<T>, wanted: T, from: int, to: int)
    requires
        0 <= from <= to <= items.len(),
        forall|i: int| from <= i < to ==> items[i] != wanted,
    ensures
        first_index(items, wanted, from) == first_index(items, wanted, to),
    decreases to - from,
{
    if from < to {
        lemma_first_index_skips(items, wanted, from + 1, to);
    }
}

/// The position of the first `wanted` among `bytes` at or behind `from`, or the length
/// of `bytes` where there is none.
pub fn find_byte(bytes: &[u8], wanted: u8, from: usize) -> (at: usize)
    ensures
        at == first_index(bytes@, wanted, from as int),
        at <= bytes@.len(),
        from <= bytes@.len() ==> from <= at,
{
    let len = bytes.len();
    if from >= len {
        return len;
    }
    let mut at: usize = from;
    while at < len && bytes[at] != wanted
        invariant
            len == bytes@.len(),
            from <= at <= len,
            first_index(bytes@, wanted, from as int) == first_index(bytes@, wanted, at as int),
        decreases len - at,
    {
        at = at + 1;
    }
    at
}

} // verus!
