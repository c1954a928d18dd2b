//! Little-endian numbers: the least significant byte comes first.

use vstd::prelude::*;

verus! {

/// The `width` bytes that hold a number, least significant byte first.
#[verifier::opaque]
pub open spec fn le_bytes(value: nat, width: nat) -> Seq<u8>
    decreases width,
{
    if width == 0 {
        Seq::empty()
    } else {
        seq![(value % 256) as u8] + le_bytes(value / 256, (width - 1) as nat)
    }
}

/// The number that bytes hold, least significant byte first.
#[verifier::opaque]
pub open spec fn le_value(bytes: Seq<u8>) -> nat
    decreases bytes.len(),
{
    if bytes.len() == 0 {
        0
    } else {
        bytes[0] as nat + 256 * le_value(bytes.drop_first())
    }
}

/// The number of values that `width` bytes can hold.
pub open spec fn capacity(width: nat) -> nat
    decreases width,
{
    if width == 0 {
        1
    } else {
        256 * capacity((width - 1) as nat)
    }
}

/// Two, four and eight bytes hold what `u16`, `u32` and `u64` hold.
pub proof fn lemma_capacities()
    ensures
        capacity(0) == 1,
        capacity(1) == 0x100,
        capacity(2) == 0x1_0000,
        capacity(3) == 0x100_0000,
        capacity(4) == 0x1_0000_0000,
        capacity(5) == 0x100_0000_0000,
        capacity(6) == 0x1_0000_0000_0000,
        capacity(7) == 0x100_0000_0000_0000,
        capacity(8) == 0x1_0000_0000_0000_0000,
{
    reveal_with_fuel(capacity, 10);
}

/// A number is held by as many bytes as were asked for.
pub proof fn lemma_le_bytes_len(value: nat, width: nat)
    ensures
        le_bytes(value, width).len() == width,
    decreases width,
{
    reveal_with_fuel(le_bytes, 2);
    if width > 0 {
        lemma_le_bytes_len(value / 256, (width - 1) as nat);
    }
}

/// Bytes hold a number below the capacity of their count.
pub proof fn lemma_le_value_bound(bytes: Seq<u8>)
    ensures
        le_value(bytes) < capacity(bytes.len()),
    decreases bytes.len(),
{
    reveal_with_fuel(le_value, 2);
    if bytes.len() > 0 {
        lemma_le_value_bound(bytes.drop_first());
    }
}

/// The bytes of a number hold that number, where it fits them.
pub proof fn lemma_le_value_of_bytes(value: nat, width: nat)
    requires
        value < capacity(width),
    ensures
        le_value(le_bytes(value, width)) == value,
    decreases width,
{
    reveal_with_fuel(le_bytes, 2);
    reveal_with_fuel(le_value, 2);
    if width > 0 {
        let rest = le_bytes(value / 256, (width - 1) as nat);
        let all = le_bytes(value, width);
        assert(all.drop_first() =~= rest);
        lemma_le_value_of_bytes(value / 256, (width - 1) as nat);
    }
}

/// The number that bytes hold is held by those bytes.
pub proof fn lemma_le_bytes_of_value(bytes: Seq<u8>)
    ensures
        le_bytes(le_value(bytes), bytes.len()) == bytes,
    decreases bytes.len(),
{
    reveal_with_fuel(le_bytes, 2);
    reveal_with_fuel(le_value, 2);
    if bytes.len() > 0 {
        let rest = bytes.drop_first();
        lemma_le_bytes_of_value(rest);
        let value = le_value(bytes);
        assert(value % 256 == bytes[0] as nat);
        assert(value / 256 == le_value(rest));
        assert(le_bytes(value, bytes.len()) =~= bytes);
    }
}

/// Four bytes hold a number as they hold what is left of it after division
/// by their capacity.
pub proof fn lemma_four_bytes_wrap(value: nat)
    ensures
        le_bytes(value, 4) == le_bytes(value % 0x1_0000_0000, 4),
{
    reveal_with_fuel(le_bytes, 5);
    let low = value % 0x1_0000_0000;
    assert(low % 256 == value % 256);
    assert((low / 256) % 256 == (value / 256) % 256);
    assert((low / 256 / 256) % 256 == (value / 256 / 256) % 256);
    assert((low / 256 / 256 / 256) % 256 == (value / 256 / 256 / 256) % 256);
    assert(le_bytes(value, 4) =~= le_bytes(low, 4));
}

/// Appends the `width` little-endian bytes of a number to a buffer.
pub fn append_le(buffer: &mut Vec<u8>, value: u64, width: usize)
    requires
        width <= 8,
        value < capacity(width as nat),
    ensures
        final(buffer)@ == old(buffer)@ + le_bytes(value as nat, width as nat),
{
    let mut rest = value;
    let mut i: usize = 0;
    proof {
        reveal_with_fuel(le_bytes, 2);
    }
    assert(buffer@ =~= old(buffer)@ + Seq::<u8>::empty());
    while i < width
        invariant
            0 <= i <= width <= 8,
            buffer@ + le_bytes(rest as nat, (width - i) as nat) == old(buffer)@ + le_bytes(
                value as nat,
                width as nat,
            ),
        decreases width - i,
    {
        proof {
            reveal_with_fuel(le_bytes, 2);
        }
        let ghost before = buffer@;
        let ghost tail = le_bytes((rest / 256) as nat, (width - i - 1) as nat);
        assert(le_bytes(rest as nat, (width - i) as nat) == seq![(rest % 256) as u8] + tail);
        buffer.push((rest % 256) as u8);
        assert(buffer@ + tail =~= before + (seq![(rest % 256) as u8] + tail));
        rest = rest / 256;
        i = i + 1;
    }
    proof {
        reveal_with_fuel(le_bytes, 2);
    }
    assert(buffer@ + Seq::<u8>::empty() =~= buffer@);
}

/// Reads the number that up to eight bytes hold, least significant byte first.
pub fn read_le(bytes: &[u8]) -> (r: u64)
    requires
        bytes@.len() <= 8,
    ensures
        r == le_value(bytes@),
{
    let mut value: u64 = 0;
    let mut i: usize = bytes.len();
    proof {
        reveal_with_fuel(le_value, 2);
        lemma_capacities();
        assert(bytes@.skip(i as int) =~= Seq::<u8>::empty());
    }
    while i > 0
        invariant
            0 <= i <= bytes@.len() <= 8,
            value == le_value(bytes@.skip(i as int)),
        decreases i,
    {
        i = i - 1;
        proof {
            reveal_with_fuel(le_value, 2);
            let here = bytes@.skip(i as int);
            assert(here.drop_first() =~= bytes@.skip(i as int + 1));
            assert(here[0] == bytes@[i as int]);
            lemma_le_value_bound(here);
            lemma_le_value_bound(here.drop_first());
            lemma_capacities();
            lemma_capacity_grows(here.len(), 8);
        }
        value = value * 256 + bytes[i] as u64;
    }
    assert(bytes@.skip(0) =~= bytes@);
    value
}

/// More bytes hold at least as much.
pub proof fn lemma_capacity_grows(narrow: nat, wide: nat)
    requires
        narrow <= wide,
    ensures
        capacity(narrow) <= capacity(wide),
    decreases wide,
{
    if narrow < wide {
        lemma_capacity_grows(narrow, (wide - 1) as nat);
    }
}

} // verus!
