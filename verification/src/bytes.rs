//! Big-endian integers and plain comparisons on byte sequences.

use vstd::prelude::*;
use vstd::slice::slice_subrange;

verus! {

/// The value of `bytes` read as one big-endian integer.
pub open spec fn from_be(bytes: Seq<u8>) -> nat
    decreases bytes.len(),
{
    if bytes.len() == 0 {
        0
    } else {
        from_be(bytes.drop_last()) * 256 + bytes.last() as nat
    }
}

/// The last `width` big-endian bytes of `value`.
pub open spec fn to_be(value: nat, width: nat) -> Seq<u8>
    decreases width,
{
    if width == 0 {
        Seq::empty()
    } else {
        to_be(value / 256, (width - 1) as nat).push((value % 256) as u8)
    }
}

/// How many values `width` bytes can hold.
pub open spec fn be_limit(width: nat) -> nat
    decreases width,
{
    if width == 0 {
        1
    } else {
        be_limit((width - 1) as nat) * 256
    }
}

pub proof fn lemma_be_limits()
    ensures
        be_limit(1) == 0x100,
        be_limit(2) == 0x1_0000,
        be_limit(4) == 0x1_0000_0000,
        be_limit(7) == 0x100_0000_0000_0000,
        be_limit(8) == 0x1_0000_0000_0000_0000,
{
    reveal_with_fuel(be_limit, 9);
}

pub proof fn lemma_to_be_len(value: nat, width: nat)
    ensures
        to_be(value, width).len() == width,
    decreases width,
{
    if width > 0 {
        lemma_to_be_len(value / 256, (width - 1) as nat);
    }
}

pub proof fn lemma_from_be_bound(bytes: Seq<u8>)
    ensures
        from_be(bytes) < be_limit(bytes.len()),
    decreases bytes.len(),
{
    if bytes.len() > 0 {
        lemma_from_be_bound(bytes.drop_last());
    }
}

pub proof fn lemma_be_limit_monotonic(small: nat, large: nat)
    requires
        small <= large,
    ensures
        be_limit(small) <= be_limit(large),
    decreases large,
{
    if small < large {
        lemma_be_limit_monotonic(small, (large - 1) as nat);
    }
}

/// Writing an integer and reading it back gives the same integer.
pub proof fn lemma_from_to_be(value: nat, width: nat)
    requires
        value < be_limit(width),
    ensures
        from_be(to_be(value, width)) == value,
    decreases width,
{
    if width > 0 {
        lemma_from_to_be(value / 256, (width - 1) as nat);
        let head = to_be(value / 256, (width - 1) as nat);
        assert(to_be(value, width).drop_last() =~= head);
    }
}

/// Reading bytes and writing the integer gives the same bytes.
pub proof fn lemma_to_from_be(bytes: Seq<u8>)
    ensures
        to_be(from_be(bytes), bytes.len()) == bytes,
    decreases bytes.len(),
{
    if bytes.len() > 0 {
        let head = bytes.drop_last();
        lemma_to_from_be(head);
        assert(from_be(bytes) / 256 == from_be(head));
        assert(from_be(bytes) % 256 == bytes.last() as nat);
        assert(bytes =~= head.push(bytes.last()));
    }
}

/// Appends the last `width` big-endian bytes of `value`.
pub fn push_be(out: &mut Vec<u8>, value: u64, width: usize)
    requires
        width <= 8,
    ensures
        final(out)@ == old(out)@ + to_be(value as nat, width as nat),
    decreases width,
{
    if width > 0 {
        push_be(out, value / 256, width - 1);
        out.push((value % 256) as u8);
        assert(out@ =~= old(out)@ + to_be(value as nat, width as nat));
    } else {
        assert(out@ =~= old(out)@ + to_be(value as nat, 0));
    }
}

/// Reads the `width` bytes at `start` as one big-endian integer.
pub fn read_be(bytes: &[u8], start: usize, width: usize) -> (value: u64)
    requires
        width <= 8,
        start + width <= bytes@.len(),
    ensures
        value == from_be(bytes@.subrange(start as int, start + width)),
        value < be_limit(width as nat),
{
    let length: usize = bytes.len();
    let mut value: u64 = 0;
    let mut index: usize = 0;
    assert(bytes@.subrange(start as int, start as int).len() == 0);
    while index < width
        invariant
            index <= width <= 8,
            start + width <= bytes@.len() == length,
            value == from_be(bytes@.subrange(start as int, start + index)),
        decreases width - index,
    {
        proof {
            let done = bytes@.subrange(start as int, start + index);
            let next = bytes@.subrange(start as int, start + index + 1);
            assert(next.drop_last() =~= done);
            lemma_from_be_bound(done);
            lemma_be_limit_monotonic(index as nat, 7);
            lemma_be_limits();
        }
        value = value * 256 + bytes[start + index] as u64;
        index = index + 1;
    }
    proof {
        lemma_from_be_bound(bytes@.subrange(start as int, start + width));
    }
    value
}

/// Whether two byte slices hold the same bytes.
pub fn same_bytes(a: &[u8], b: &[u8]) -> (same: bool)
    ensures
        same == (a@ == b@),
{
    if a.len() != b.len() {
        return false;
    }
    let mut index: usize = 0;
    while index < a.len()
        invariant
            index <= a@.len() == b@.len(),
            forall|i: int| 0 <= i < index ==> a@[i] == b@[i],
        decreases a@.len() - index,
    {
        if a[index] != b[index] {
            return false;
        }
        index = index + 1;
    }
    assert(a@ =~= b@);
    true
}

/// `a` comes before `b` byte by byte, a prefix before what it begins.
pub open spec fn precedes(a: Seq<u8>, b: Seq<u8>) -> bool
    decreases a.len(),
{
    if b.len() == 0 {
        false
    } else if a.len() == 0 {
        true
    } else if a[0] != b[0] {
        a[0] < b[0]
    } else {
        precedes(a.drop_first(), b.drop_first())
    }
}

/// Of two different byte sequences exactly one precedes the other.
pub proof fn lemma_precedes_total(a: Seq<u8>, b: Seq<u8>)
    ensures
        a == b ==> !precedes(a, b),
        a != b ==> (precedes(a, b) != precedes(b, a)),
    decreases a.len(),
{
    if a.len() > 0 && b.len() > 0 {
        lemma_precedes_total(a.drop_first(), b.drop_first());
        if a[0] == b[0] && a.drop_first() == b.drop_first() {
            assert(a =~= seq![a[0]] + a.drop_first());
            assert(b =~= seq![b[0]] + b.drop_first());
        }
    } else if a.len() == 0 && b.len() == 0 {
        assert(a =~= b);
    }
}

/// Whether `a` comes before `b` byte by byte.
pub fn bytes_precede(a: &[u8], b: &[u8]) -> (before: bool)
    ensures
        before == precedes(a@, b@),
{
    let mut index: usize = 0;
    assert(a@.skip(0) =~= a@ && b@.skip(0) =~= b@);
    while index < a.len() && index < b.len()
        invariant
            index <= a@.len(),
            index <= b@.len(),
            precedes(a@, b@) == precedes(a@.skip(index as int), b@.skip(index as int)),
        decreases a@.len() - index,
    {
        proof {
            assert(a@.skip(index as int).drop_first() =~= a@.skip(index + 1));
            assert(b@.skip(index as int).drop_first() =~= b@.skip(index + 1));
        }
        if a[index] != b[index] {
            return a[index] < b[index];
        }
        index = index + 1;
    }
    index < b.len()
}

/// The 32 bytes at `start`.
pub fn array_32(bytes: &[u8], start: usize) -> (array: [u8; 32])
    requires
        start + 32 <= bytes@.len(),
    ensures
        array@ == bytes@.subrange(start as int, start + 32),
{
    let length: usize = bytes.len();
    let mut array = [0u8; 32];
    let mut index: usize = 0;
    while index < 32
        invariant
            index <= 32,
            start + 32 <= bytes@.len() == length,
            forall|i: int| 0 <= i < index ==> array@[i] == bytes@[start + i],
        decreases 32 - index,
    {
        array[index] = bytes[start + index];
        index = index + 1;
    }
    assert(array@ =~= bytes@.subrange(start as int, start + 32));
    array
}

/// The first 16 of 32 bytes.
pub fn first_16(bytes: &[u8; 32]) -> (array: [u8; 16])
    ensures
        array@ == bytes@.subrange(0, 16),
{
    let mut array = [0u8; 16];
    let mut index: usize = 0;
    while index < 16
        invariant
            index <= 16,
            forall|i: int| 0 <= i < index ==> array@[i] == bytes@[i],
        decreases 16 - index,
    {
        array[index] = bytes[index];
        index = index + 1;
    }
    assert(array@ =~= bytes@.subrange(0, 16));
    array
}

/// Appends `part` to `out`.
pub fn append(out: &mut Vec<u8>, part: &[u8])
    ensures
        final(out)@ == old(out)@ + part@,
{
    out.extend_from_slice(part);
    assert(out@ =~= old(out)@ + part@);
}

/// The bytes from `start` up to `end`.
pub fn copy_range(bytes: &[u8], start: usize, end: usize) -> (part: Vec<u8>)
    requires
        start <= end <= bytes@.len(),
    ensures
        part@ == bytes@.subrange(start as int, end as int),
{
    vstd::slice::slice_to_vec(slice_subrange(bytes, start, end))
}

/// The first byte of a number weighs most: it counts once for every number that the others can hold.
pub proof fn law_the_first_byte_weighs_most(bytes: Seq<u8>)
    requires
        bytes.len() > 0,
    ensures
        from_be(bytes) == bytes[0] * be_limit((bytes.len() - 1) as nat) + from_be(
            bytes.drop_first(),
        ),
    decreases bytes.len(),
{
    reveal_with_fuel(from_be, 2);
    reveal_with_fuel(be_limit, 2);
    if bytes.len() > 1 {
        let head = bytes.drop_last();
        law_the_first_byte_weighs_most(head);
        assert(bytes.drop_first().drop_last() =~= head.drop_first());
        let limit = be_limit((head.len() - 1) as nat);
        assert((bytes[0] * limit + from_be(head.drop_first())) * 256 == bytes[0] * (limit * 256)
            + from_be(head.drop_first()) * 256) by (nonlinear_arith);
    } else {
        assert(bytes.drop_last() =~= Seq::empty());
        assert(bytes.drop_first() =~= Seq::empty());
        assert(be_limit(0) == 1);
        assert(bytes[0] * be_limit(0) == bytes[0]);
    }
}

/// One sequence precedes another exactly as words do: at the first place where they differ its byte
/// is lower, or it ends there.
pub proof fn law_sequences_are_ordered_like_words(a: Seq<u8>, b: Seq<u8>, place: int)
    requires
        0 <= place <= a.len(),
        place <= b.len(),
        a.take(place) == b.take(place),
        place < a.len() && place < b.len() ==> a[place] != b[place],
    ensures
        place < a.len() && place < b.len() ==> precedes(a, b) == (a[place] < b[place]),
        place == a.len() ==> precedes(a, b) == (place < b.len()),
        place == b.len() ==> !precedes(a, b),
    decreases place,
{
    if place > 0 {
        assert(a.take(place)[0] == a[0]);
        assert(b.take(place)[0] == b[0]);
        assert(a.drop_first().take(place - 1) =~= a.take(place).drop_first());
        assert(b.drop_first().take(place - 1) =~= b.take(place).drop_first());
        law_sequences_are_ordered_like_words(a.drop_first(), b.drop_first(), place - 1);
    }
}

} // verus!
