//! The wire format of the values that records and instructions are made of.
//!
//! Integers are little-endian, a boolean is one byte that is 0 or 1, an
//! address is its thirty-two bytes, a string is a 32-bit byte count followed
//! by UTF-8, and a list of integers is a 32-bit item count followed by the
//! items. Each value has a spec function that gives its bytes (`enc_*`), a
//! spec function that reads it at an offset of a byte sequence (`dec_*`), and
//! executable functions that are proved against them.

use crate::pubkey::Pubkey;
use vstd::bytes::*;
use vstd::prelude::*;
use vstd::slice::*;
use vstd::utf8::*;

verus! {

/// `n` bytes stand at offset `at` of `b`.
pub open spec fn fits(b: Seq<u8>, at: int, n: int) -> bool {
    0 <= at && 0 <= n && at + n <= b.len()
}

/// The byte of a boolean.
pub open spec fn enc_bool(v: bool) -> Seq<u8> {
    seq![if v { 1u8 } else { 0u8 }]
}

/// The byte of an 8-bit integer.
pub open spec fn enc_u8(v: u8) -> Seq<u8> {
    seq![v]
}

/// The two bytes of a 16-bit integer, lowest first.
pub open spec fn enc_u16(v: u16) -> Seq<u8> {
    spec_u16_to_le_bytes(v)
}

/// The four bytes of a 32-bit integer, lowest first.
pub open spec fn enc_u32(v: u32) -> Seq<u8> {
    spec_u32_to_le_bytes(v)
}

/// The eight bytes of a 64-bit integer, lowest first.
pub open spec fn enc_u64(v: u64) -> Seq<u8> {
    spec_u64_to_le_bytes(v)
}

/// The bytes of a string: the number of its UTF-8 bytes, then those bytes.
pub open spec fn enc_string(s: Seq<char>) -> Seq<u8> {
    enc_u32(encode_utf8(s).len() as u32) + encode_utf8(s)
}

/// The bytes of the items of a list, one after the other.
pub open spec fn enc_u64_items(v: Seq<u64>) -> Seq<u8>
    decreases v.len(),
{
    if v.len() == 0 {
        Seq::<u8>::empty()
    } else {
        enc_u64_items(v.drop_last()) + enc_u64(v.last())
    }
}

/// The bytes of a list of 64-bit integers: the number of items, then the
/// items.
pub open spec fn enc_u64_list(v: Seq<u64>) -> Seq<u8> {
    enc_u32(v.len() as u32) + enc_u64_items(v)
}

/// The boolean at offset `at`: a byte that is 0 or 1.
pub open spec fn dec_bool(b: Seq<u8>, at: int) -> Option<bool> {
    if fits(b, at, 1) && b[at] == 0 {
        Some(false)
    } else if fits(b, at, 1) && b[at] == 1 {
        Some(true)
    } else {
        None
    }
}

/// The 8-bit integer at offset `at`.
pub open spec fn dec_u8(b: Seq<u8>, at: int) -> Option<u8> {
    if fits(b, at, 1) {
        Some(b[at])
    } else {
        None
    }
}

/// The 16-bit integer at offset `at`.
pub open spec fn dec_u16(b: Seq<u8>, at: int) -> Option<u16> {
    if fits(b, at, 2) {
        Some(spec_u16_from_le_bytes(b.subrange(at, at + 2)))
    } else {
        None
    }
}

/// The 32-bit integer at offset `at`.
pub open spec fn dec_u32(b: Seq<u8>, at: int) -> Option<u32> {
    if fits(b, at, 4) {
        Some(spec_u32_from_le_bytes(b.subrange(at, at + 4)))
    } else {
        None
    }
}

/// The 64-bit integer at offset `at`.
pub open spec fn dec_u64(b: Seq<u8>, at: int) -> Option<u64> {
    if fits(b, at, 8) {
        Some(spec_u64_from_le_bytes(b.subrange(at, at + 8)))
    } else {
        None
    }
}

/// The thirty-two bytes at offset `at`.
pub open spec fn dec_key(b: Seq<u8>, at: int) -> Option<Seq<u8>> {
    if fits(b, at, 32) {
        Some(b.subrange(at, at + 32))
    } else {
        None
    }
}

/// The string at offset `at`, with the offset that follows it.
pub open spec fn dec_string(b: Seq<u8>, at: int) -> Option<(Seq<char>, int)> {
    match dec_u32(b, at) {
        Some(n) => {
            if fits(b, at + 4, n as int) && valid_utf8(b.subrange(at + 4, at + 4 + n)) {
                Some((decode_utf8(b.subrange(at + 4, at + 4 + n)), at + 4 + n))
            } else {
                None
            }
        },
        None => None,
    }
}

/// The `n` 64-bit integers that stand one after the other from offset `at`.
pub open spec fn dec_u64_items(b: Seq<u8>, at: int, n: nat) -> Seq<u64> {
    Seq::new(n, |i: int| spec_u64_from_le_bytes(b.subrange(at + 8 * i, at + 8 * i + 8)))
}

/// The list of 64-bit integers at offset `at`, with the offset that follows
/// it.
pub open spec fn dec_u64_list(b: Seq<u8>, at: int) -> Option<(Seq<u64>, int)> {
    match dec_u32(b, at) {
        Some(n) => {
            if fits(b, at + 4, 8 * n) {
                Some((dec_u64_items(b, at + 4, n as nat), at + 4 + 8 * n))
            } else {
                None
            }
        },
        None => None,
    }
}

/// Reads the boolean at offset `at`.
pub fn read_bool(data: &[u8], at: usize) -> (r: Option<bool>)
    ensures
        r == dec_bool(data@, at as int),
{
    if at >= data.len() {
        return None;
    }
    let byte = data[at];
    if byte == 0 {
        Some(false)
    } else if byte == 1 {
        Some(true)
    } else {
        None
    }
}

/// Reads the 8-bit integer at offset `at`.
pub fn read_u8(data: &[u8], at: usize) -> (r: Option<u8>)
    ensures
        r == dec_u8(data@, at as int),
{
    if at >= data.len() {
        return None;
    }
    Some(data[at])
}

/// Reads the 16-bit integer at offset `at`.
pub fn read_u16(data: &[u8], at: usize) -> (r: Option<u16>)
    ensures
        r == dec_u16(data@, at as int),
{
    if at > data.len() || data.len() - at < 2 {
        return None;
    }
    Some(u16_from_le_bytes(slice_subrange(data, at, at + 2)))
}

/// Reads the 32-bit integer at offset `at`.
pub fn read_u32(data: &[u8], at: usize) -> (r: Option<u32>)
    ensures
        r == dec_u32(data@, at as int),
{
    if at > data.len() || data.len() - at < 4 {
        return None;
    }
    Some(u32_from_le_bytes(slice_subrange(data, at, at + 4)))
}

/// Reads the 64-bit integer at offset `at`.
pub fn read_u64(data: &[u8], at: usize) -> (r: Option<u64>)
    ensures
        r == dec_u64(data@, at as int),
{
    if at > data.len() || data.len() - at < 8 {
        return None;
    }
    Some(u64_from_le_bytes(slice_subrange(data, at, at + 8)))
}

/// Reads the thirty-two bytes at offset `at`.
pub fn read_bytes32(data: &[u8], at: usize) -> (r: Option<[u8; 32]>)
    ensures
        r is Some <==> dec_key(data@, at as int) is Some,
        r matches Some(a) ==> dec_key(data@, at as int) == Some(a@),
{
    if at > data.len() || data.len() - at < 32 {
        return None;
    }
    let mut bytes = [0u8; 32];
    let mut i: usize = 0;
    while i < 32
        invariant
            i <= 32,
            at + 32 <= data@.len() <= usize::MAX,
            forall|j: int| 0 <= j < i ==> bytes@[j] == data@[at + j],
        decreases 32 - i,
    {
        bytes[i] = data[at + i];
        i = i + 1;
    }
    proof {
        assert(bytes@ =~= data@.subrange(at as int, at + 32));
    }
    Some(bytes)
}

/// Reads the address at offset `at`.
pub fn read_key(data: &[u8], at: usize) -> (r: Option<Pubkey>)
    ensures
        r is Some <==> dec_key(data@, at as int) is Some,
        r matches Some(k) ==> dec_key(data@, at as int) == Some(k@),
{
    match read_bytes32(data, at) {
        Some(bytes) => Some(Pubkey::new_from_array(bytes)),
        None => None,
    }
}

/// `String::from_utf8` of std: the string that the bytes spell, where they
/// are well-formed UTF-8, and nothing where they are not.
#[verifier::external_body]
fn string_from_utf8(bytes: Vec<u8>) -> (text: Option<String>)
    ensures
        text is Some <==> valid_utf8(bytes@),
        text matches Some(s) ==> s@ == decode_utf8(bytes@),
{
    String::from_utf8(bytes).ok()
}

/// Reads the string at offset `at`; gives it with the offset that follows
/// it.
pub fn read_string(data: &[u8], at: usize) -> (r: Option<(String, usize)>)
    ensures
        r is Some <==> dec_string(data@, at as int) is Some,
        r matches Some((s, next)) ==> dec_string(data@, at as int) == Some((s@, next as int)),
{
    let n = match read_u32(data, at) {
        Some(n) => n as usize,
        None => {
            return None;
        },
    };
    if data.len() - at - 4 < n {
        return None;
    }
    let start = at + 4;
    let bytes = slice_to_vec(slice_subrange(data, start, start + n));
    match string_from_utf8(bytes) {
        Some(s) => Some((s, start + n)),
        None => None,
    }
}

/// Reads the list of 64-bit integers at offset `at`; gives it with the
/// offset that follows it.
pub fn read_u64_list(data: &[u8], at: usize) -> (r: Option<(Vec<u64>, usize)>)
    ensures
        r is Some <==> dec_u64_list(data@, at as int) is Some,
        r matches Some((v, next)) ==> dec_u64_list(data@, at as int) == Some((v@, next as int)),
{
    let n = match read_u32(data, at) {
        Some(n) => n as usize,
        None => {
            return None;
        },
    };
    if (data.len() - at - 4) / 8 < n {
        return None;
    }
    let start = at + 4;
    let mut items: Vec<u64> = Vec::new();
    let mut i: usize = 0;
    while i < n
        invariant
            i <= n,
            start + 8 * n <= data@.len() <= usize::MAX,
            items@ =~= dec_u64_items(data@, start as int, i as nat),
        decreases n - i,
    {
        let item = u64_from_le_bytes(slice_subrange(data, start + 8 * i, start + 8 * i + 8));
        items.push(item);
        i = i + 1;
    }
    Some((items, start + 8 * n))
}

/// Appends the byte of a boolean.
pub fn write_bool(out: &mut Vec<u8>, v: bool)
    ensures
        final(out)@ == old(out)@ + enc_bool(v),
{
    out.push(if v { 1u8 } else { 0u8 });
    proof {
        assert(out@ =~= old(out)@ + enc_bool(v));
    }
}

/// Appends the byte of an 8-bit integer.
pub fn write_u8(out: &mut Vec<u8>, v: u8)
    ensures
        final(out)@ == old(out)@ + enc_u8(v),
{
    out.push(v);
    proof {
        assert(out@ =~= old(out)@ + enc_u8(v));
    }
}

/// Appends the two bytes of a 16-bit integer.
pub fn write_u16(out: &mut Vec<u8>, v: u16)
    ensures
        final(out)@ == old(out)@ + enc_u16(v),
{
    let mut bytes = u16_to_le_bytes(v);
    out.append(&mut bytes);
}

/// Appends the four bytes of a 32-bit integer.
pub fn write_u32(out: &mut Vec<u8>, v: u32)
    ensures
        final(out)@ == old(out)@ + enc_u32(v),
{
    let mut bytes = u32_to_le_bytes(v);
    out.append(&mut bytes);
}

/// Appends the eight bytes of a 64-bit integer.
pub fn write_u64(out: &mut Vec<u8>, v: u64)
    ensures
        final(out)@ == old(out)@ + enc_u64(v),
{
    let mut bytes = u64_to_le_bytes(v);
    out.append(&mut bytes);
}

/// Appends thirty-two bytes.
pub fn write_bytes32(out: &mut Vec<u8>, bytes: &[u8; 32])
    ensures
        final(out)@ == old(out)@ + bytes@,
{
    let mut i: usize = 0;
    while i < 32
        invariant
            i <= 32,
            out@ =~= old(out)@ + bytes@.subrange(0, i as int),
        decreases 32 - i,
    {
        out.push(bytes[i]);
        i = i + 1;
    }
    proof {
        assert(bytes@.subrange(0, 32) =~= bytes@);
    }
}

/// Appends the bytes of an address.
pub fn write_key(out: &mut Vec<u8>, key: &Pubkey)
    ensures
        final(out)@ == old(out)@ + key@,
{
    write_bytes32(out, &key.bytes);
}

/// Appends the bytes of a string.
pub fn write_string(out: &mut Vec<u8>, s: &String)
    requires
        encode_utf8(s@).len() <= u32::MAX,
    ensures
        final(out)@ == old(out)@ + enc_string(s@),
{
    let bytes = s.as_str().as_bytes();
    write_u32(out, bytes.len() as u32);
    let mut tail = slice_to_vec(bytes);
    out.append(&mut tail);
    proof {
        assert(out@ =~= old(out)@ + enc_string(s@));
    }
}

/// Appends the bytes of a list of 64-bit integers.
pub fn write_u64_list(out: &mut Vec<u8>, v: &Vec<u64>)
    requires
        v@.len() <= u32::MAX,
    ensures
        final(out)@ == old(out)@ + enc_u64_list(v@),
{
    write_u32(out, v.len() as u32);
    let ghost base = out@;
    let mut i: usize = 0;
    while i < v.len()
        invariant
            i <= v@.len(),
            out@ =~= base + enc_u64_items(v@.take(i as int)),
        decreases v@.len() - i,
    {
        proof {
            assert(v@.take(i + 1).drop_last() =~= v@.take(i as int));
        }
        write_u64(out, v[i]);
        i = i + 1;
    }
    proof {
        assert(v@.take(v@.len() as int) =~= v@);
        assert(out@ =~= old(out)@ + enc_u64_list(v@));
    }
}

/// A buffer whose first bytes have been replaced by `prefix`, the rest
/// left as it was.
pub open spec fn overlay(base: Seq<u8>, prefix: Seq<u8>) -> Seq<u8> {
    prefix + base.skip(prefix.len() as int)
}

/// Replaces the first bytes of `dst` by `bytes`, and leaves the rest as it
/// was.
pub fn write_prefix(dst: &mut Vec<u8>, bytes: &Vec<u8>)
    requires
        bytes@.len() <= old(dst)@.len(),
    ensures
        final(dst)@ == overlay(old(dst)@, bytes@),
        final(dst)@.len() == old(dst)@.len(),
{
    let mut i: usize = 0;
    while i < bytes.len()
        invariant
            i <= bytes@.len() <= dst@.len(),
            dst@.len() == old(dst)@.len(),
            forall|j: int| 0 <= j < i ==> dst@[j] == bytes@[j],
            forall|j: int| i <= j < dst@.len() ==> dst@[j] == old(dst)@[j],
        decreases bytes@.len() - i,
    {
        dst.set(i, bytes[i]);
        i = i + 1;
    }
    proof {
        assert(dst@ =~= overlay(old(dst)@, bytes@));
    }
}

/// A buffer whose bytes from offset `at` on have been replaced by `bytes`,
/// the rest left as it was.
pub open spec fn splice(base: Seq<u8>, at: int, bytes: Seq<u8>) -> Seq<u8> {
    base.subrange(0, at) + bytes + base.skip(at + bytes.len())
}

/// Replaces the bytes of `dst` from offset `at` on by `bytes`, and leaves
/// the rest as it was.
pub fn write_at(dst: &mut Vec<u8>, at: usize, bytes: &Vec<u8>)
    requires
        at + bytes@.len() <= old(dst)@.len(),
    ensures
        final(dst)@ == splice(old(dst)@, at as int, bytes@),
        final(dst)@.len() == old(dst)@.len(),
{
    let len: usize = dst.len();
    let mut i: usize = 0;
    while i < bytes.len()
        invariant
            i <= bytes@.len(),
            at + bytes@.len() <= dst@.len() == len,
            dst@.len() == old(dst)@.len(),
            forall|j: int| 0 <= j < i ==> dst@[at + j] == bytes@[j],
            forall|j: int| 0 <= j < at ==> dst@[j] == old(dst)@[j],
            forall|j: int| at + i <= j < dst@.len() ==> dst@[j] == old(dst)@[j],
        decreases bytes@.len() - i,
    {
        dst.set(at + i, bytes[i]);
        i = i + 1;
    }
    proof {
        assert(dst@ =~= splice(old(dst)@, at as int, bytes@));
    }
}

/// The boolean that was written is read again.
pub proof fn lemma_bool_round_trip(b: Seq<u8>, at: int, v: bool)
    requires
        fits(b, at, 1),
        b.subrange(at, at + 1) == enc_bool(v),
    ensures
        dec_bool(b, at) == Some(v),
{
    assert(b[at] == b.subrange(at, at + 1)[0]);
}

/// The 8-bit integer that was written is read again.
pub proof fn lemma_u8_round_trip(b: Seq<u8>, at: int, v: u8)
    requires
        fits(b, at, 1),
        b.subrange(at, at + 1) == enc_u8(v),
    ensures
        dec_u8(b, at) == Some(v),
{
    assert(b[at] == b.subrange(at, at + 1)[0]);
}

/// The 16-bit integer that was written is read again.
pub proof fn lemma_u16_round_trip(b: Seq<u8>, at: int, v: u16)
    requires
        fits(b, at, 2),
        b.subrange(at, at + 2) == enc_u16(v),
    ensures
        dec_u16(b, at) == Some(v),
{
    lemma_auto_spec_u16_to_from_le_bytes();
    assert(spec_u16_to_le_bytes(v).len() == 2);
}

/// The 32-bit integer that was written is read again.
pub proof fn lemma_u32_round_trip(b: Seq<u8>, at: int, v: u32)
    requires
        fits(b, at, 4),
        b.subrange(at, at + 4) == enc_u32(v),
    ensures
        dec_u32(b, at) == Some(v),
{
    lemma_auto_spec_u32_to_from_le_bytes();
    assert(spec_u32_to_le_bytes(v).len() == 4);
}

/// The 64-bit integer that was written is read again.
pub proof fn lemma_u64_round_trip(b: Seq<u8>, at: int, v: u64)
    requires
        fits(b, at, 8),
        b.subrange(at, at + 8) == enc_u64(v),
    ensures
        dec_u64(b, at) == Some(v),
{
    lemma_auto_spec_u64_to_from_le_bytes();
}

/// The lengths of the encodings.
pub proof fn lemma_enc_lengths()
    ensures
        forall|v: bool| #[trigger] enc_bool(v).len() == 1,
        forall|v: u8| #[trigger] enc_u8(v).len() == 1,
        forall|v: u16| #[trigger] enc_u16(v).len() == 2,
        forall|v: u32| #[trigger] enc_u32(v).len() == 4,
        forall|v: u64| #[trigger] enc_u64(v).len() == 8,
{
    lemma_auto_spec_u16_to_from_le_bytes();
    lemma_auto_spec_u32_to_from_le_bytes();
    lemma_auto_spec_u64_to_from_le_bytes();
}

/// The encoding of a list's items has eight bytes for each item.
pub proof fn lemma_enc_u64_items_len(v: Seq<u64>)
    ensures
        enc_u64_items(v).len() == 8 * v.len(),
    decreases v.len(),
{
    lemma_enc_lengths();
    if v.len() > 0 {
        lemma_enc_u64_items_len(v.drop_last());
    }
}

/// The string that was written is read again, and the offset that follows
/// it is the end of what was written.
pub proof fn lemma_string_round_trip(b: Seq<u8>, at: int, s: Seq<char>)
    requires
        encode_utf8(s).len() <= u32::MAX,
        fits(b, at, enc_string(s).len() as int),
        b.subrange(at, at + enc_string(s).len()) == enc_string(s),
    ensures
        dec_string(b, at) == Some((s, at + enc_string(s).len())),
        enc_string(s).len() == 4 + encode_utf8(s).len(),
{
    lemma_enc_lengths();
    let n = encode_utf8(s).len() as u32;
    let whole = b.subrange(at, at + enc_string(s).len());
    assert(b.subrange(at, at + 4) =~= whole.subrange(0, 4));
    assert(whole.subrange(0, 4) =~= enc_u32(n));
    lemma_u32_round_trip(b, at, n);
    assert(b.subrange(at + 4, at + 4 + n) =~= whole.subrange(4, 4 + n));
    assert(whole.subrange(4, 4 + n) =~= encode_utf8(s));
    encode_utf8_valid_utf8(s);
    encode_utf8_decode_utf8(s);
}

/// The items that were written are read again.
pub proof fn lemma_u64_items_round_trip(b: Seq<u8>, at: int, v: Seq<u64>)
    requires
        fits(b, at, 8 * (v.len() as int)),
        b.subrange(at, at + 8 * (v.len() as int)) == enc_u64_items(v),
    ensures
        dec_u64_items(b, at, v.len()) == v,
    decreases v.len(),
{
    lemma_enc_lengths();
    if v.len() == 0 {
        assert(dec_u64_items(b, at, 0) =~= v);
    } else {
        let head = v.drop_last();
        let m = head.len() as int;
        lemma_enc_u64_items_len(head);
        let whole = b.subrange(at, at + 8 * (v.len() as int));
        assert(b.subrange(at, at + 8 * m) =~= whole.subrange(0, 8 * m));
        assert(whole.subrange(0, 8 * m) =~= enc_u64_items(head));
        lemma_u64_items_round_trip(b, at, head);
        assert(b.subrange(at + 8 * m, at + 8 * m + 8) =~= whole.subrange(8 * m, 8 * m + 8));
        assert(whole.subrange(8 * m, 8 * m + 8) =~= enc_u64(v.last()));
        lemma_auto_spec_u64_to_from_le_bytes();
        assert forall|i: int| 0 <= i < v.len() implies dec_u64_items(b, at, v.len())[i] == v[i] by {
            if i < m {
                assert(dec_u64_items(b, at, head.len())[i] == head[i]);
            }
        }
        assert(dec_u64_items(b, at, v.len()) =~= v);
    }
}

/// The list that was written is read again, and the offset that follows it
/// is the end of what was written.
pub proof fn lemma_u64_list_round_trip(b: Seq<u8>, at: int, v: Seq<u64>)
    requires
        v.len() <= u32::MAX,
        fits(b, at, enc_u64_list(v).len() as int),
        b.subrange(at, at + enc_u64_list(v).len()) == enc_u64_list(v),
    ensures
        dec_u64_list(b, at) == Some((v, at + enc_u64_list(v).len())),
        enc_u64_list(v).len() == 4 + 8 * v.len(),
{
    lemma_enc_lengths();
    lemma_enc_u64_items_len(v);
    let n = v.len() as u32;
    let whole = b.subrange(at, at + enc_u64_list(v).len());
    assert(b.subrange(at, at + 4) =~= whole.subrange(0, 4));
    assert(whole.subrange(0, 4) =~= enc_u32(n));
    lemma_u32_round_trip(b, at, n);
    let k = 8 * (v.len() as int);
    assert(b.subrange(at + 4, at + 4 + k) =~= whole.subrange(4, 4 + k));
    assert(whole.subrange(4, 4 + k) =~= enc_u64_items(v));
    lemma_u64_items_round_trip(b, at + 4, v);
}

/// `p` is the start of `b`.
pub open spec fn is_prefix(p: Seq<u8>, b: Seq<u8>) -> bool {
    p.len() <= b.len() && p == b.subrange(0, p.len() as int)
}

/// A string that is read from the start of a buffer is read from the whole
/// buffer too, and ends at the same offset.
pub proof fn lemma_string_in_prefix(p: Seq<u8>, b: Seq<u8>, at: int)
    requires
        is_prefix(p, b),
        dec_string(p, at) is Some,
    ensures
        dec_string(b, at) == dec_string(p, at),
{
    assert(p.subrange(at, at + 4) =~= b.subrange(at, at + 4));
    let n = dec_u32(p, at).unwrap() as int;
    assert(p.subrange(at + 4, at + 4 + n) =~= b.subrange(at + 4, at + 4 + n));
}

/// A list that is read from the start of a buffer is read from the whole
/// buffer too, and ends at the same offset.
pub proof fn lemma_u64_list_in_prefix(p: Seq<u8>, b: Seq<u8>, at: int)
    requires
        is_prefix(p, b),
        dec_u64_list(p, at) is Some,
    ensures
        dec_u64_list(b, at) is Some,
        dec_u64_list(b, at).unwrap().1 == dec_u64_list(p, at).unwrap().1,
{
    assert(p.subrange(at, at + 4) =~= b.subrange(at, at + 4));
}

/// The addresses of a list, each as its bytes.
pub open spec fn keys_view(v: Seq<Pubkey>) -> Seq<Seq<u8>> {
    v.map_values(|k: Pubkey| k@)
}

/// Every address of the list has thirty-two bytes.
pub open spec fn keys_well_formed(v: Seq<Seq<u8>>) -> bool {
    forall|i: int| 0 <= i < v.len() ==> (#[trigger] v[i]).len() == 32
}

/// The bytes of the addresses of a list, one after the other.
pub open spec fn enc_key_items(v: Seq<Seq<u8>>) -> Seq<u8>
    decreases v.len(),
{
    if v.len() == 0 {
        Seq::<u8>::empty()
    } else {
        enc_key_items(v.drop_last()) + v.last()
    }
}

/// The bytes of a list of addresses: the number of items, then the items.
pub open spec fn enc_key_list(v: Seq<Seq<u8>>) -> Seq<u8> {
    enc_u32(v.len() as u32) + enc_key_items(v)
}

/// The `n` addresses that stand one after the other from offset `at`.
pub open spec fn dec_key_items(b: Seq<u8>, at: int, n: nat) -> Seq<Seq<u8>> {
    Seq::new(n, |i: int| b.subrange(at + 32 * i, at + 32 * i + 32))
}

/// The list of addresses at offset `at`, with the offset that follows it.
pub open spec fn dec_key_list(b: Seq<u8>, at: int) -> Option<(Seq<Seq<u8>>, int)> {
    match dec_u32(b, at) {
        Some(n) => {
            if fits(b, at + 4, 32 * n) {
                Some((dec_key_items(b, at + 4, n as nat), at + 4 + 32 * n))
            } else {
                None
            }
        },
        None => None,
    }
}

/// A list without every occurrence of `x`, the others in their order.
pub open spec fn without<T>(s: Seq<T>, x: T) -> Seq<T>
    decreases s.len(),
{
    if s.len() == 0 {
        Seq::<T>::empty()
    } else if s.last() == x {
        without(s.drop_last(), x)
    } else {
        without(s.drop_last(), x).push(s.last())
    }
}

/// What is left of a list without `x` does not hold `x` and is no longer
/// than the list.
pub proof fn lemma_without<T>(s: Seq<T>, x: T)
    ensures
        forall|i: int| 0 <= i < without(s, x).len() ==> without(s, x)[i] != x,
        !without(s, x).contains(x),
        without(s, x).len() <= s.len(),
    decreases s.len(),
{
    if s.len() > 0 {
        lemma_without(s.drop_last(), x);
    }
}

/// Reads the list of addresses at offset `at`; gives it with the offset that
/// follows it.
pub fn read_key_list(data: &[u8], at: usize) -> (r: Option<(Vec<Pubkey>, usize)>)
    ensures
        r is Some <==> dec_key_list(data@, at as int) is Some,
        r matches Some((v, next)) ==> dec_key_list(data@, at as int) == Some(
            (keys_view(v@), next as int),
        ) && keys_well_formed(keys_view(v@)),
{
    let n = match read_u32(data, at) {
        Some(n) => n as usize,
        None => {
            return None;
        },
    };
    if (data.len() - at - 4) / 32 < n {
        return None;
    }
    let start = at + 4;
    let mut items: Vec<Pubkey> = Vec::new();
    let mut i: usize = 0;
    while i < n
        invariant
            i <= n,
            start + 32 * n <= data@.len() <= usize::MAX,
            keys_view(items@) =~= dec_key_items(data@, start as int, i as nat),
        decreases n - i,
    {
        let item = match read_key(data, start + 32 * i) {
            Some(k) => k,
            None => {
                return None;
            },
        };
        let ghost before = items@;
        items.push(item);
        proof {
            assert(keys_view(items@) =~= keys_view(before).push(item@));
        }
        i = i + 1;
    }
    proof {
        assert(keys_well_formed(keys_view(items@)));
    }
    Some((items, start + 32 * n))
}

/// Appends the bytes of a list of addresses.
pub fn write_key_list(out: &mut Vec<u8>, v: &Vec<Pubkey>)
    requires
        v@.len() <= u32::MAX,
    ensures
        final(out)@ == old(out)@ + enc_key_list(keys_view(v@)),
{
    write_u32(out, v.len() as u32);
    let ghost base = out@;
    let mut i: usize = 0;
    while i < v.len()
        invariant
            i <= v@.len(),
            out@ =~= base + enc_key_items(keys_view(v@).take(i as int)),
        decreases v@.len() - i,
    {
        proof {
            assert(keys_view(v@).take(i + 1).drop_last() =~= keys_view(v@).take(i as int));
        }
        write_key(out, &v[i]);
        i = i + 1;
    }
    proof {
        assert(keys_view(v@).take(v@.len() as int) =~= keys_view(v@));
        assert(out@ =~= old(out)@ + enc_key_list(keys_view(v@)));
    }
}

/// Whether the list holds the address.
pub fn holds_key(v: &Vec<Pubkey>, key: &Pubkey) -> (b: bool)
    ensures
        b == keys_view(v@).contains(key@),
{
    let mut i: usize = 0;
    while i < v.len()
        invariant
            i <= v@.len(),
            forall|j: int| 0 <= j < i ==> keys_view(v@)[j] != key@,
        decreases v@.len() - i,
    {
        if v[i].equals(key) {
            assert(keys_view(v@)[i as int] == key@);
            return true;
        }
        i = i + 1;
    }
    false
}

/// The list without every occurrence of the address.
pub fn without_key(v: &Vec<Pubkey>, key: &Pubkey) -> (out: Vec<Pubkey>)
    ensures
        keys_view(out@) == without(keys_view(v@), key@),
{
    let mut out: Vec<Pubkey> = Vec::new();
    let mut i: usize = 0;
    while i < v.len()
        invariant
            i <= v@.len(),
            keys_view(out@) =~= without(keys_view(v@).take(i as int), key@),
        decreases v@.len() - i,
    {
        proof {
            assert(keys_view(v@).take(i + 1).drop_last() =~= keys_view(v@).take(i as int));
        }
        if !v[i].equals(key) {
            let ghost before = out@;
            out.push(v[i]);
            proof {
                assert(keys_view(out@) =~= keys_view(before).push(v@[i as int]@));
            }
        }
        i = i + 1;
    }
    proof {
        assert(keys_view(v@).take(v@.len() as int) =~= keys_view(v@));
    }
    out
}

/// Whether the list holds the number.
pub fn holds_u64(v: &Vec<u64>, x: u64) -> (b: bool)
    ensures
        b == v@.contains(x),
{
    let mut i: usize = 0;
    while i < v.len()
        invariant
            i <= v@.len(),
            forall|j: int| 0 <= j < i ==> v@[j] != x,
        decreases v@.len() - i,
    {
        if v[i] == x {
            return true;
        }
        i = i + 1;
    }
    false
}

/// The list without every occurrence of the number.
pub fn without_u64(v: &Vec<u64>, x: u64) -> (out: Vec<u64>)
    ensures
        out@ == without(v@, x),
{
    let mut out: Vec<u64> = Vec::new();
    let mut i: usize = 0;
    while i < v.len()
        invariant
            i <= v@.len(),
            out@ =~= without(v@.take(i as int), x),
        decreases v@.len() - i,
    {
        proof {
            assert(v@.take(i + 1).drop_last() =~= v@.take(i as int));
        }
        if v[i] != x {
            out.push(v[i]);
        }
        i = i + 1;
    }
    proof {
        assert(v@.take(v@.len() as int) =~= v@);
    }
    out
}

/// The encoding of a list's addresses has thirty-two bytes for each.
pub proof fn lemma_enc_key_items_len(v: Seq<Seq<u8>>)
    requires
        keys_well_formed(v),
    ensures
        enc_key_items(v).len() == 32 * v.len(),
    decreases v.len(),
{
    if v.len() > 0 {
        assert(v.last() == v[v.len() - 1]);
        assert forall|i: int| 0 <= i < v.drop_last().len() implies (#[trigger] v.drop_last()[i]).len()
            == 32 by {
            assert(v.drop_last()[i] == v[i]);
        }
        lemma_enc_key_items_len(v.drop_last());
    }
}

/// The addresses that were written are read again.
pub proof fn lemma_key_items_round_trip(b: Seq<u8>, at: int, v: Seq<Seq<u8>>)
    requires
        keys_well_formed(v),
        fits(b, at, 32 * (v.len() as int)),
        b.subrange(at, at + 32 * (v.len() as int)) == enc_key_items(v),
    ensures
        dec_key_items(b, at, v.len()) == v,
    decreases v.len(),
{
    if v.len() == 0 {
        assert(dec_key_items(b, at, 0) =~= v);
    } else {
        let head = v.drop_last();
        let m = head.len() as int;
        assert(v.last() == v[v.len() - 1]);
        assert forall|i: int| 0 <= i < head.len() implies (#[trigger] head[i]).len() == 32 by {
            assert(head[i] == v[i]);
        }
        lemma_enc_key_items_len(head);
        let whole = b.subrange(at, at + 32 * (v.len() as int));
        assert(b.subrange(at, at + 32 * m) =~= whole.subrange(0, 32 * m));
        assert(whole.subrange(0, 32 * m) =~= enc_key_items(head));
        lemma_key_items_round_trip(b, at, head);
        assert(b.subrange(at + 32 * m, at + 32 * m + 32) =~= whole.subrange(32 * m, 32 * m + 32));
        assert(whole.subrange(32 * m, 32 * m + 32) =~= v.last());
        assert forall|i: int| 0 <= i < v.len() implies dec_key_items(b, at, v.len())[i] == v[i] by {
            if i < m {
                assert(dec_key_items(b, at, head.len())[i] == head[i]);
            }
        }
        assert(dec_key_items(b, at, v.len()) =~= v);
    }
}

/// The list of addresses that was written is read again, and the offset that
/// follows it is the end of what was written.
pub proof fn lemma_key_list_round_trip(b: Seq<u8>, at: int, v: Seq<Seq<u8>>)
    requires
        keys_well_formed(v),
        v.len() <= u32::MAX,
        fits(b, at, enc_key_list(v).len() as int),
        b.subrange(at, at + enc_key_list(v).len()) == enc_key_list(v),
    ensures
        dec_key_list(b, at) == Some((v, at + enc_key_list(v).len())),
        enc_key_list(v).len() == 4 + 32 * v.len(),
{
    lemma_enc_lengths();
    lemma_enc_key_items_len(v);
    let n = v.len() as u32;
    let whole = b.subrange(at, at + enc_key_list(v).len());
    assert(b.subrange(at, at + 4) =~= whole.subrange(0, 4));
    assert(whole.subrange(0, 4) =~= enc_u32(n));
    lemma_u32_round_trip(b, at, n);
    let k = 32 * (v.len() as int);
    assert(b.subrange(at + 4, at + 4 + k) =~= whole.subrange(4, 4 + k));
    assert(whole.subrange(4, 4 + k) =~= enc_key_items(v));
    lemma_key_items_round_trip(b, at + 4, v);
}

/// A list of addresses that was read is well formed.
pub proof fn lemma_dec_key_list_well_formed(b: Seq<u8>, at: int)
    requires
        dec_key_list(b, at) is Some,
    ensures
        keys_well_formed(dec_key_list(b, at).unwrap().0),
        dec_key_list(b, at).unwrap().0.len() <= u32::MAX,
        dec_key_list(b, at).unwrap().1 == at + 4 + 32 * dec_key_list(b, at).unwrap().0.len(),
        dec_key_list(b, at).unwrap().1 <= b.len(),
{
}

/// A list of numbers that was read ends where its items end.
pub proof fn lemma_dec_u64_list_len(b: Seq<u8>, at: int)
    requires
        dec_u64_list(b, at) is Some,
    ensures
        dec_u64_list(b, at).unwrap().0.len() <= u32::MAX,
        dec_u64_list(b, at).unwrap().1 == at + 4 + 8 * dec_u64_list(b, at).unwrap().0.len(),
        dec_u64_list(b, at).unwrap().1 <= b.len(),
{
}

} // verus!
