//! Field encodings of the wire format: integers as base-128 varints,
//! booleans as one byte, byte strings and text behind a length, and
//! homogeneous lists behind a count.
//!
//! Every `parse_*` function reads one value from the front of a byte
//! sequence and gives it with the number of bytes read.

use vstd::prelude::*;
use vstd::utf8::{decode_utf8, encode_utf8, valid_utf8, encode_utf8_valid_utf8, encode_utf8_decode_utf8};
use crate::varint::{
    lemma_capacity_u32, lemma_capacity_u64, lemma_parse_varint_of_varint, lemma_varint_len, parse_varint, put_varint, take_varint,
    varint, LAST_U32, LAST_U64, WIDTH_U32, WIDTH_U64,
};

verus! {

pub open spec fn enc_u32(v: u32) -> Seq<u8> {
    varint(v as nat)
}

pub open spec fn enc_u64(v: u64) -> Seq<u8> {
    varint(v as nat)
}

pub open spec fn enc_bool(b: bool) -> Seq<u8> {
    seq![if b { 1u8 } else { 0u8 }]
}

/// A length, then the bytes themselves.
pub open spec fn enc_bytes(b: Seq<u8>) -> Seq<u8> {
    varint(b.len()) + b
}

/// Text travels as its UTF-8 bytes.
pub open spec fn enc_str(s: Seq<char>) -> Seq<u8> {
    enc_bytes(encode_utf8(s))
}

pub open spec fn parse_u32(b: Seq<u8>) -> Option<(u32, nat)> {
    match parse_varint(b, WIDTH_U32 as nat, LAST_U32) {
        Some((v, n)) => Some((v as u32, n)),
        None => None,
    }
}

pub open spec fn parse_u64(b: Seq<u8>) -> Option<(u64, nat)> {
    match parse_varint(b, WIDTH_U64 as nat, LAST_U64) {
        Some((v, n)) => Some((v as u64, n)),
        None => None,
    }
}

/// Only the bytes 0 and 1 are booleans.
pub open spec fn parse_bool(b: Seq<u8>) -> Option<(bool, nat)> {
    if b.len() >= 1 && b[0] <= 1 {
        Some((b[0] == 1, 1nat))
    } else {
        None
    }
}

pub open spec fn parse_bytes(b: Seq<u8>) -> Option<(Seq<u8>, nat)> {
    match parse_u64(b) {
        Some((len, n)) => if n + len <= b.len() {
            Some((b.subrange(n as int, n + len), n + len as nat))
        } else {
            None
        },
        None => None,
    }
}

/// Bytes that are not UTF-8 are no text.
pub open spec fn parse_str(b: Seq<u8>) -> Option<(Seq<char>, nat)> {
    match parse_bytes(b) {
        Some((raw, n)) => if valid_utf8(raw) {
            Some((decode_utf8(raw), n))
        } else {
            None
        },
        None => None,
    }
}

/// The encodings of `items`, one after the other.
pub open spec fn enc_each<T>(items: Seq<T>, enc: spec_fn(T) -> Seq<u8>) -> Seq<u8>
    decreases items.len(),
{
    if items.len() == 0 {
        Seq::<u8>::empty()
    } else {
        enc(items[0]) + enc_each(items.skip(1), enc)
    }
}

/// Reads `count` items from the front of `b`.
pub open spec fn parse_each<T>(
    b: Seq<u8>,
    count: nat,
    item: spec_fn(Seq<u8>) -> Option<(T, nat)>,
) -> Option<(Seq<T>, nat)>
    decreases count,
{
    if count == 0 {
        Some((Seq::<T>::empty(), 0nat))
    } else {
        match item(b) {
            Some((x, n)) => match parse_each(b.skip(n as int), (count - 1) as nat, item) {
                Some((xs, m)) => Some((seq![x] + xs, n + m)),
                None => None,
            },
            None => None,
        }
    }
}

/// A count, then the items.
pub open spec fn enc_list<T>(items: Seq<T>, enc: spec_fn(T) -> Seq<u8>) -> Seq<u8> {
    varint(items.len()) + enc_each(items, enc)
}

pub open spec fn parse_list<T>(b: Seq<u8>, item: spec_fn(Seq<u8>) -> Option<(T, nat)>) -> Option<
    (Seq<T>, nat),
> {
    match parse_u64(b) {
        Some((count, n)) => match parse_each(b.skip(n as int), count as nat, item) {
            Some((xs, m)) => Some((xs, n + m)),
            None => None,
        },
        None => None,
    }
}

/// `item` reads back what `enc` wrote for `x`, whatever follows.
pub open spec fn reads_back<T>(
    x: T,
    enc: spec_fn(T) -> Seq<u8>,
    item: spec_fn(Seq<u8>) -> Option<(T, nat)>,
) -> bool {
    forall|rest: Seq<u8>| #[trigger] item(enc(x) + rest) == Some((x, enc(x).len()))
}

/// What a parser gives when it has read `done` items in `off` bytes and
/// the rest of the input parses to `tail`.
pub open spec fn after_items<T>(done: Seq<T>, off: nat, tail: Option<(Seq<T>, nat)>) -> Option<
    (Seq<T>, nat),
> {
    match tail {
        Some((xs, m)) => Some((done + xs, off + m)),
        None => None,
    }
}

pub proof fn lemma_parse_u32(v: u32, rest: Seq<u8>)
    ensures
        parse_u32(enc_u32(v) + rest) == Some((v, enc_u32(v).len())),
        1 <= enc_u32(v).len() <= WIDTH_U32,
{
    lemma_capacity_u32();
    lemma_varint_len(v as nat);
    lemma_parse_varint_of_varint(v as nat, rest, WIDTH_U32 as nat, LAST_U32);
}

pub proof fn lemma_parse_u64(v: u64, rest: Seq<u8>)
    ensures
        parse_u64(enc_u64(v) + rest) == Some((v, enc_u64(v).len())),
        1 <= enc_u64(v).len() <= WIDTH_U64,
{
    lemma_capacity_u64();
    lemma_varint_len(v as nat);
    lemma_parse_varint_of_varint(v as nat, rest, WIDTH_U64 as nat, LAST_U64);
}

pub proof fn lemma_parse_bool(v: bool, rest: Seq<u8>)
    ensures
        parse_bool(enc_bool(v) + rest) == Some((v, enc_bool(v).len())),
{
    assert((enc_bool(v) + rest)[0] == enc_bool(v)[0]);
}

pub proof fn lemma_parse_bytes(v: Seq<u8>, rest: Seq<u8>)
    requires
        v.len() <= u64::MAX,
    ensures
        parse_bytes(enc_bytes(v) + rest) == Some((v, enc_bytes(v).len())),
{
    let head = varint(v.len());
    let all = enc_bytes(v) + rest;
    assert(all =~= enc_u64(v.len() as u64) + (v + rest));
    lemma_parse_u64(v.len() as u64, v + rest);
    assert(all.subrange(head.len() as int, (head.len() + v.len()) as int) =~= v);
}

pub proof fn lemma_parse_str(v: Seq<char>, rest: Seq<u8>)
    requires
        encode_utf8(v).len() <= u64::MAX,
    ensures
        parse_str(enc_str(v) + rest) == Some((v, enc_str(v).len())),
{
    lemma_parse_bytes(encode_utf8(v), rest);
    encode_utf8_valid_utf8(v);
    encode_utf8_decode_utf8(v);
}

/// Adding an item at the end adds its encoding at the end.
pub proof fn lemma_enc_each_push<T>(items: Seq<T>, x: T, enc: spec_fn(T) -> Seq<u8>)
    ensures
        enc_each(items.push(x), enc) == enc_each(items, enc) + enc(x),
    decreases items.len(),
{
    let more = items.push(x);
    if items.len() == 0 {
        assert(more.skip(1) =~= Seq::<T>::empty());
        assert(more[0] == x);
        assert(enc_each(more.skip(1), enc) =~= Seq::<u8>::empty());
        assert(enc_each(more, enc) =~= enc(x) + Seq::<u8>::empty());
        assert(enc_each(items, enc) + enc(x) =~= enc(x));
    } else {
        assert(more.skip(1) =~= items.skip(1).push(x));
        lemma_enc_each_push(items.skip(1), x, enc);
        assert(enc_each(more, enc) =~= enc_each(items, enc) + enc(x));
    }
}

pub proof fn lemma_parse_each<T>(
    items: Seq<T>,
    rest: Seq<u8>,
    enc: spec_fn(T) -> Seq<u8>,
    item: spec_fn(Seq<u8>) -> Option<(T, nat)>,
)
    requires
        forall|i: int| 0 <= i < items.len() ==> reads_back(#[trigger] items[i], enc, item),
    ensures
        parse_each(enc_each(items, enc) + rest, items.len(), item) == Some(
            (items, enc_each(items, enc).len()),
        ),
    decreases items.len(),
{
    if items.len() == 0 {
        assert(items =~= Seq::<T>::empty());
    } else {
        let x = items[0];
        let tail = items.skip(1);
        let all = enc_each(items, enc) + rest;
        assert(reads_back(x, enc, item));
        assert(all =~= enc(x) + (enc_each(tail, enc) + rest));
        assert(item(enc(x) + (enc_each(tail, enc) + rest)) == Some((x, enc(x).len())));
        assert(all.skip(enc(x).len() as int) =~= enc_each(tail, enc) + rest);
        assert forall|i: int| 0 <= i < tail.len() implies reads_back(
            #[trigger] tail[i],
            enc,
            item,
        ) by {
            assert(tail[i] == items[i + 1]);
        }
        lemma_parse_each(tail, rest, enc, item);
        assert(seq![x] + tail =~= items);
    }
}

pub proof fn lemma_parse_list<T>(
    items: Seq<T>,
    rest: Seq<u8>,
    enc: spec_fn(T) -> Seq<u8>,
    item: spec_fn(Seq<u8>) -> Option<(T, nat)>,
)
    requires
        items.len() <= u64::MAX,
        forall|i: int| 0 <= i < items.len() ==> reads_back(#[trigger] items[i], enc, item),
    ensures
        parse_list(enc_list(items, enc) + rest, item) == Some((items, enc_list(items, enc).len())),
{
    let head = varint(items.len());
    let all = enc_list(items, enc) + rest;
    assert(all =~= enc_u64(items.len() as u64) + (enc_each(items, enc) + rest));
    lemma_parse_u64(items.len() as u64, enc_each(items, enc) + rest);
    assert(all.skip(head.len() as int) =~= enc_each(items, enc) + rest);
    lemma_parse_each(items, rest, enc, item);
}

/// One more item read moves it from the tail to the items read so far.
pub proof fn lemma_after_items_step<T>(
    b: Seq<u8>,
    count: nat,
    item: spec_fn(Seq<u8>) -> Option<(T, nat)>,
    done: Seq<T>,
    off: nat,
)
    requires
        count > 0,
        off <= b.len(),
        item(b.skip(off as int)) matches Some((_, n)) ==> off + n <= b.len(),
    ensures
        match item(b.skip(off as int)) {
            Some((x, n)) => after_items(done, off, parse_each(b.skip(off as int), count, item))
                == after_items(
                done.push(x),
                off + n,
                parse_each(b.skip((off + n) as int), (count - 1) as nat, item),
            ),
            None => parse_each(b.skip(off as int), count, item) is None,
        },
{
    match item(b.skip(off as int)) {
        Some((x, n)) => {
            assert(b.skip(off as int).skip(n as int) =~= b.skip((off + n) as int));
            match parse_each(b.skip((off + n) as int), (count - 1) as nat, item) {
                Some((xs, m)) => {
                    assert(done + (seq![x] + xs) =~= done.push(x) + xs);
                },
                None => {},
            }
        },
        None => {},
    }
}

pub fn put_u32(out: &mut Vec<u8>, v: u32)
    ensures
        final(out)@ == old(out)@ + enc_u32(v),
{
    put_varint(out, v as u64);
}

pub fn put_u64(out: &mut Vec<u8>, v: u64)
    ensures
        final(out)@ == old(out)@ + enc_u64(v),
{
    put_varint(out, v);
}

pub fn put_bool(out: &mut Vec<u8>, v: bool)
    ensures
        final(out)@ == old(out)@ + enc_bool(v),
{
    let ghost before = out@;
    out.push(if v { 1u8 } else { 0u8 });
    proof {
        assert(out@ =~= before + enc_bool(v));
    }
}

/// Appends `src` to `out` as it is.
pub fn put_raw(out: &mut Vec<u8>, src: &[u8])
    ensures
        final(out)@ == old(out)@ + src@,
{
    let mut i: usize = 0;
    while i < src.len()
        invariant
            i <= src@.len(),
            out@ == old(out)@ + src@.take(i as int),
        decreases src@.len() - i,
    {
        let ghost before = out@;
        out.push(src[i]);
        proof {
            assert(out@ =~= old(out)@ + src@.take(i + 1));
        }
        i = i + 1;
    }
    proof {
        assert(src@.take(i as int) =~= src@);
    }
}

pub fn put_bytes(out: &mut Vec<u8>, v: &[u8])
    ensures
        final(out)@ == old(out)@ + enc_bytes(v@),
        v@.len() <= u64::MAX,
{
    let ghost before = out@;
    put_varint(out, v.len() as u64);
    put_raw(out, v);
    proof {
        assert(out@ =~= before + enc_bytes(v@));
    }
}

pub fn put_str(out: &mut Vec<u8>, v: &str)
    ensures
        final(out)@ == old(out)@ + enc_str(v@),
        encode_utf8(v@).len() <= u64::MAX,
{
    put_bytes(out, v.as_bytes());
}

pub(crate) fn take_u32(buf: &[u8], pos: usize) -> (r: Option<(u32, usize)>)
    requires
        pos <= buf@.len(),
    ensures
        match parse_u32(buf@.skip(pos as int)) {
            Some((v, n)) => r matches Some((got, next)) && got == v && next == pos + n && 1 <= n
                && pos + n <= buf@.len(),
            None => r is None,
        },
{
    proof {
        lemma_capacity_u32();
    }
    match take_varint(buf, pos, WIDTH_U32, LAST_U32) {
        Some((v, next)) => Some((v as u32, next)),
        None => None,
    }
}

pub(crate) fn take_u64(buf: &[u8], pos: usize) -> (r: Option<(u64, usize)>)
    requires
        pos <= buf@.len(),
    ensures
        match parse_u64(buf@.skip(pos as int)) {
            Some((v, n)) => r matches Some((got, next)) && got == v && next == pos + n && 1 <= n
                && pos + n <= buf@.len(),
            None => r is None,
        },
{
    proof {
        lemma_capacity_u64();
    }
    take_varint(buf, pos, WIDTH_U64, LAST_U64)
}

pub(crate) fn take_bool(buf: &[u8], pos: usize) -> (r: Option<(bool, usize)>)
    requires
        pos <= buf@.len(),
    ensures
        match parse_bool(buf@.skip(pos as int)) {
            Some((v, n)) => r matches Some((got, next)) && got == v && next == pos + n && 1 <= n
                && pos + n <= buf@.len(),
            None => r is None,
        },
{
    if pos < buf.len() && buf[pos] <= 1 {
        Some((buf[pos] == 1, pos + 1))
    } else {
        None
    }
}

pub(crate) fn take_bytes(buf: &[u8], pos: usize) -> (r: Option<(Vec<u8>, usize)>)
    requires
        pos <= buf@.len(),
    ensures
        match parse_bytes(buf@.skip(pos as int)) {
            Some((v, n)) => r matches Some((got, next)) && got@ == v && next == pos + n && 1 <= n
                && pos + n <= buf@.len(),
            None => r is None,
        },
{
    match take_u64(buf, pos) {
        Some((len, start)) => {
            if len <= (buf.len() - start) as u64 {
                let end: usize = start + len as usize;
                let got = vstd::slice::slice_to_vec(vstd::slice::slice_subrange(buf, start, end));
                proof {
                    let b = buf@.skip(pos as int);
                    assert(b.subrange(start - pos, end - pos) =~= buf@.subrange(
                        start as int,
                        end as int,
                    ));
                }
                Some((got, end))
            } else {
                None
            }
        },
        None => None,
    }
}

/// `String::from_utf8`: the text that `bytes` spells in UTF-8, or nothing
/// when `bytes` is not UTF-8.
#[verifier::external_body]
pub(crate) fn string_from_utf8(bytes: Vec<u8>) -> (r: Option<String>)
    ensures
        r is Some <==> valid_utf8(bytes@),
        r matches Some(s) ==> s@ == decode_utf8(bytes@),
{
    String::from_utf8(bytes).ok()
}

pub(crate) fn take_str(buf: &[u8], pos: usize) -> (r: Option<(String, usize)>)
    requires
        pos <= buf@.len(),
    ensures
        match parse_str(buf@.skip(pos as int)) {
            Some((v, n)) => r matches Some((got, next)) && got@ == v && next == pos + n && 1 <= n
                && pos + n <= buf@.len(),
            None => r is None,
        },
{
    match take_bytes(buf, pos) {
        Some((raw, next)) => match string_from_utf8(raw) {
            Some(s) => Some((s, next)),
            None => None,
        },
        None => None,
    }
}

} // verus!
