//! Little-endian base-128 integers: seven payload bits per byte, the high
//! bit set on every byte but the last.

use vstd::prelude::*;

verus! {

/// Most bytes a 32-bit value may occupy.
pub const WIDTH_U32: u8 = 5;

/// Most bytes a 64-bit value may occupy.
pub const WIDTH_U64: u8 = 10;

/// Largest final byte of a full-width 32-bit value.
pub const LAST_U32: u8 = 15;

/// Largest final byte of a full-width 64-bit value.
pub const LAST_U64: u8 = 1;

/// The encoding of `v`.
pub open spec fn varint(v: nat) -> Seq<u8>
    decreases v,
{
    if v < 128 {
        seq![v as u8]
    } else {
        seq![(128 + v % 128) as u8] + varint(v / 128)
    }
}

/// One more than the largest value that `width` bytes can carry when the
/// final byte of a full-width encoding is at most `last`.
pub open spec fn capacity(width: nat, last: u8) -> nat
    decreases width,
{
    if width <= 1 {
        last as nat + 1
    } else {
        128 * capacity((width - 1) as nat, last)
    }
}

/// Reads one integer from the front of `b`, using at most `width` bytes.
/// Gives the value and the number of bytes read, or `None` when `b` ends
/// early, runs past `width` bytes, or overflows in its final byte.
/// Encodings padded with zero payloads are accepted.
pub open spec fn parse_varint(b: Seq<u8>, width: nat, last: u8) -> Option<(nat, nat)>
    decreases width,
{
    if width == 0 || b.len() == 0 {
        None
    } else if b[0] < 128 {
        if width == 1 && b[0] > last {
            None
        } else {
            Some((b[0] as nat, 1nat))
        }
    } else {
        match parse_varint(b.skip(1), (width - 1) as nat, last) {
            Some((v, n)) => Some(((b[0] - 128) as nat + 128 * v, n + 1)),
            None => None,
        }
    }
}

pub proof fn lemma_capacity_u32()
    ensures
        capacity(WIDTH_U32 as nat, LAST_U32) == 0x1_0000_0000,
{
    reveal_with_fuel(capacity, 6);
}

pub proof fn lemma_capacity_u64()
    ensures
        capacity(WIDTH_U64 as nat, LAST_U64) == 0x1_0000_0000_0000_0000,
{
    reveal_with_fuel(capacity, 11);
}

proof fn lemma_capacity_positive(width: nat, last: u8)
    ensures
        capacity(width, last) >= 1,
    decreases width,
{
    if width > 1 {
        lemma_capacity_positive((width - 1) as nat, last);
    }
}

/// An encoding is never empty.
pub proof fn lemma_varint_len(v: nat)
    ensures
        varint(v).len() >= 1,
    decreases v,
{
    if v >= 128 {
        lemma_varint_len(v / 128);
    }
}

/// What `parse_varint` accepts is in range and lies within the input.
pub proof fn lemma_parse_varint_bounds(b: Seq<u8>, width: nat, last: u8)
    requires
        last < 128,
    ensures
        parse_varint(b, width, last) matches Some((v, n)) ==> v < capacity(width, last) && 1 <= n
            <= width && n <= b.len(),
    decreases width,
{
    if width == 0 || b.len() == 0 {
    } else if b[0] < 128 {
        if width > 1 {
            lemma_capacity_positive((width - 1) as nat, last);
        }
    } else {
        lemma_parse_varint_bounds(b.skip(1), (width - 1) as nat, last);
    }
}

/// Reading back an encoding gives the value and consumes exactly the
/// encoding, whatever follows it.
pub proof fn lemma_parse_varint_of_varint(v: nat, rest: Seq<u8>, width: nat, last: u8)
    requires
        width >= 1,
        last < 128,
        v < capacity(width, last),
    ensures
        parse_varint(varint(v) + rest, width, last) == Some((v, varint(v).len())),
        varint(v).len() <= width,
    decreases v,
{
    let b = varint(v) + rest;
    if v < 128 {
        assert(b[0] == v as u8);
        if width == 1 {
        }
    } else {
        assert(width > 1);
        let tail = varint(v / 128) + rest;
        assert(b[0] == (128 + v % 128) as u8);
        assert(b.skip(1) =~= tail);
        lemma_parse_varint_of_varint(v / 128, rest, (width - 1) as nat, last);
    }
}

/// Appends the encoding of `v` to `out`.
pub fn put_varint(out: &mut Vec<u8>, v: u64)
    ensures
        final(out)@ == old(out)@ + varint(v as nat),
{
    let mut rem: u64 = v;
    while rem >= 128
        invariant
            out@ + varint(rem as nat) == old(out)@ + varint(v as nat),
        decreases rem,
    {
        let ghost before = out@;
        out.push((128 + rem % 128) as u8);
        proof {
            assert(before + varint(rem as nat) =~= out@ + varint((rem / 128) as nat));
        }
        rem = rem / 128;
    }
    let ghost before = out@;
    out.push(rem as u8);
    proof {
        assert(before + varint(rem as nat) =~= out@);
    }
}

/// Reads one integer at `pos`, using at most `width` bytes, and gives the
/// value with the position after it.
pub(crate) fn take_varint(buf: &[u8], pos: usize, width: u8, last: u8) -> (r: Option<(u64, usize)>)
    requires
        pos <= buf@.len(),
        width <= WIDTH_U64,
        last < 128,
        capacity(width as nat, last) <= 0x1_0000_0000_0000_0000,
    ensures
        match parse_varint(buf@.skip(pos as int), width as nat, last) {
            Some((v, n)) => r matches Some((got, next)) && got == v && next == pos + n && 1 <= n
                && pos + n <= buf@.len() && v < capacity(width as nat, last),
            None => r is None,
        },
    decreases width,
{
    let ghost b = buf@.skip(pos as int);
    proof {
        lemma_parse_varint_bounds(b, width as nat, last);
    }
    if width == 0 || pos >= buf.len() {
        return None;
    }
    let byte: u8 = buf[pos];
    assert(byte == b[0]);
    if byte < 128 {
        if width == 1 && byte > last {
            None
        } else {
            Some((byte as u64, pos + 1))
        }
    } else {
        proof {
            assert(b.skip(1) =~= buf@.skip(pos + 1));
            lemma_parse_varint_bounds(b.skip(1), (width - 1) as nat, last);
            if width > 1 {
                assert(capacity(width as nat, last) == 128 * capacity((width - 1) as nat, last));
            }
        }
        match take_varint(buf, pos + 1, width - 1, last) {
            Some((v, next)) => Some(((byte - 128) as u64 + 128 * v, next)),
            None => None,
        }
    }
}

} // verus!
