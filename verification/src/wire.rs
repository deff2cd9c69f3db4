//! Byte-level building blocks of the wire format: little-endian
//! integers, length-prefixed strings, binary blobs, and documents made
//! of tagged elements, together with the parsing primitives and the
//! lemmas that connect parsing back to encoding.

use vstd::bytes::lemma_auto_spec_u32_to_from_le_bytes;
use vstd::bytes::lemma_auto_spec_u64_to_from_le_bytes;
use vstd::bytes::spec_u32_from_le_bytes;
use vstd::bytes::spec_u32_to_le_bytes;
use vstd::bytes::spec_u64_from_le_bytes;
use vstd::bytes::spec_u64_to_le_bytes;
use vstd::prelude::*;

verus! {

/// Element tag for a string value.
pub const T_STRING: u8 = 0x02;

/// Element tag for an embedded document value.
pub const T_DOC: u8 = 0x03;

/// Element tag for a binary value.
pub const T_BINARY: u8 = 0x05;

/// Element tag for a null value.
pub const T_NULL: u8 = 0x0A;

/// Element tag for a 64-bit integer value.
pub const T_INT64: u8 = 0x12;

/// Largest size, in bytes, of a document and of any length-prefixed
/// piece inside one: the length prefixes are signed 32-bit integers.
pub const MAX_DOC: u32 = 0x7FFF_FFFF;

/// The four little-endian bytes of `n`.
pub open spec fn le32(n: u32) -> Seq<u8> {
    spec_u32_to_le_bytes(n)
}

/// The eight little-endian bytes of `n`.
pub open spec fn le64(n: u64) -> Seq<u8> {
    spec_u64_to_le_bytes(n)
}

/// One element of a document body: a tag byte, the element name
/// followed by a terminating zero byte, and the value bytes.
pub open spec fn elem(tag: u8, key: Seq<u8>, value: Seq<u8>) -> Seq<u8> {
    seq![tag] + key + seq![0u8] + value
}

/// A string value over its UTF-8 bytes: byte count including the
/// terminator, the bytes, and a terminating zero byte.
pub open spec fn str_value_bytes(x: Seq<u8>) -> Seq<u8> {
    le32((x.len() + 1) as u32) + x + seq![0u8]
}

/// A string value of a character sequence.
pub open spec fn str_value(s: Seq<char>) -> Seq<u8> {
    str_value_bytes(vstd::utf8::encode_utf8(s))
}

/// A binary value of generic subtype: byte count, subtype zero, bytes.
pub open spec fn bin_value(x: Seq<u8>) -> Seq<u8> {
    le32(x.len() as u32) + seq![0u8] + x
}

/// A 64-bit integer value: the two's-complement bytes, little endian.
pub open spec fn i64_value(v: i64) -> Seq<u8> {
    le64(v as u64)
}

/// A 32-bit unsigned field stored as a 64-bit integer value, so that
/// the whole unsigned range round-trips.
pub open spec fn u32_value(v: u32) -> Seq<u8> {
    le64(v as u64)
}

/// A whole document: total byte count including the prefix and the
/// final zero byte, the element bytes, and the final zero byte.
pub open spec fn doc(body: Seq<u8>) -> Seq<u8> {
    le32((body.len() + 5) as u32) + body + seq![0u8]
}

/// The 32-bit little-endian integer at offset `i`.
pub open spec fn rd_le32(b: Seq<u8>, i: int) -> u32 {
    spec_u32_from_le_bytes(b.subrange(i, i + 4))
}

/// The 64-bit little-endian integer at offset `i`.
pub open spec fn rd_le64(b: Seq<u8>, i: int) -> u64 {
    spec_u64_from_le_bytes(b.subrange(i, i + 8))
}

/// Whether the bytes of `pat` occur in `b` at offset `i`.
pub open spec fn match_bytes(b: Seq<u8>, i: int, pat: Seq<u8>) -> bool {
    &&& 0 <= i
    &&& i + pat.len() <= b.len()
    &&& b.subrange(i, i + pat.len()) == pat
}

/// Reads a string value at offset `i`: on success, the string's UTF-8
/// bytes and the offset just past the value.
pub open spec fn take_string(b: Seq<u8>, i: int) -> Option<(Seq<u8>, int)> {
    if 0 <= i && i + 4 <= b.len() {
        let n = rd_le32(b, i) as int;
        if 1 <= n && n <= MAX_DOC && i + 4 + n <= b.len() && b[i + 4 + n - 1] == 0u8 {
            Some((b.subrange(i + 4, i + 4 + n - 1), i + 4 + n))
        } else {
            None
        }
    } else {
        None
    }
}

/// Reads a binary value at offset `i`: on success, the bytes and the
/// offset just past the value.
pub open spec fn take_bin(b: Seq<u8>, i: int) -> Option<(Seq<u8>, int)> {
    if 0 <= i && i + 5 <= b.len() {
        let n = rd_le32(b, i) as int;
        if n <= MAX_DOC && b[i + 4] == 0u8 && i + 5 + n <= b.len() {
            Some((b.subrange(i + 5, i + 5 + n), i + 5 + n))
        } else {
            None
        }
    } else {
        None
    }
}

/// Reads a 64-bit integer value at offset `i`.
pub open spec fn take_u64(b: Seq<u8>, i: int) -> Option<(u64, int)> {
    if 0 <= i && i + 8 <= b.len() {
        Some((rd_le64(b, i), i + 8))
    } else {
        None
    }
}

/// Reads an embedded document at offset `i`: on success, the whole
/// document's bytes, prefix and terminator included, and the offset
/// just past it.
pub open spec fn take_doc(b: Seq<u8>, i: int) -> Option<(Seq<u8>, int)> {
    if 0 <= i && i + 4 <= b.len() {
        let n = rd_le32(b, i) as int;
        if 5 <= n && n <= MAX_DOC && i + n <= b.len() && b[i + n - 1] == 0u8 {
            Some((b.subrange(i, i + n), i + n))
        } else {
            None
        }
    } else {
        None
    }
}

/// Checks a tagged element header at offset `i`: on success, the
/// offset of the element's value.
pub open spec fn expect_header(b: Seq<u8>, i: int, tag: u8, key: Seq<u8>) -> Option<int> {
    if match_bytes(b, i, seq![tag] + key + seq![0u8]) {
        Some(i + 2 + key.len())
    } else {
        None
    }
}

/// Splits a well-formed document into its element bytes.
pub open spec fn parse_doc_body(b: Seq<u8>) -> Option<Seq<u8>> {
    if 5 <= b.len() && b.len() <= MAX_DOC && rd_le32(b, 0) as int == b.len() && b[b.len() - 1]
        == 0u8 {
        Some(b.subrange(4, b.len() - 1))
    } else {
        None
    }
}

/// A match against a concatenation splits into matches of its parts.
pub proof fn lemma_match_append(b: Seq<u8>, i: int, p1: Seq<u8>, p2: Seq<u8>)
    requires
        match_bytes(b, i, p1 + p2),
    ensures
        match_bytes(b, i, p1),
        match_bytes(b, i + p1.len(), p2),
{
    let whole = b.subrange(i, i + p1.len() + p2.len());
    assert(b.subrange(i, i + p1.len()) =~= p1) by {
        assert forall|k: int| 0 <= k < p1.len() implies b.subrange(i, i + p1.len())[k] == p1[k] by {
            assert(whole[k] == (p1 + p2)[k]);
        }
    }
    assert(b.subrange(i + p1.len(), i + p1.len() + p2.len()) =~= p2) by {
        assert forall|k: int| 0 <= k < p2.len() implies b.subrange(
            i + p1.len(),
            i + p1.len() + p2.len(),
        )[k] == p2[k] by {
            assert(whole[p1.len() + k] == (p1 + p2)[p1.len() + k]);
        }
    }
}

/// A string value in place parses back to the string's bytes.
pub proof fn lemma_take_string(b: Seq<u8>, i: int, x: Seq<u8>)
    requires
        match_bytes(b, i, str_value_bytes(x)),
        x.len() + 1 <= MAX_DOC,
    ensures
        take_string(b, i) == Some((x, i + 4 + x.len() + 1)),
{
    lemma_auto_spec_u32_to_from_le_bytes();
    let n: u32 = (x.len() + 1) as u32;
    let sv = str_value_bytes(x);
    assert(sv.len() == 4 + x.len() + 1);
    assert(b.subrange(i, i + 4) =~= le32(n)) by {
        assert forall|k: int| 0 <= k < 4 implies b.subrange(i, i + 4)[k] == le32(n)[k] by {
            assert(b.subrange(i, i + sv.len())[k] == sv[k]);
            assert(sv[k] == le32(n)[k]);
        }
    }
    assert(rd_le32(b, i) == n);
    assert(b[i + 4 + n - 1] == sv[sv.len() - 1]) by {
        assert(b.subrange(i, i + sv.len())[sv.len() - 1] == sv[sv.len() - 1]);
    }
    assert(sv[sv.len() - 1] == 0u8);
    assert(b.subrange(i + 4, i + 4 + n - 1) =~= x) by {
        assert forall|k: int| 0 <= k < x.len() implies b.subrange(i + 4, i + 4 + n - 1)[k]
            == x[k] by {
            assert(b.subrange(i, i + sv.len())[4 + k] == sv[4 + k]);
            assert(sv[4 + k] == x[k]);
        }
    }
}

/// A binary value in place parses back to its bytes.
pub proof fn lemma_take_bin(b: Seq<u8>, i: int, x: Seq<u8>)
    requires
        match_bytes(b, i, bin_value(x)),
        x.len() <= MAX_DOC,
    ensures
        take_bin(b, i) == Some((x, i + 5 + x.len())),
{
    lemma_auto_spec_u32_to_from_le_bytes();
    let n: u32 = x.len() as u32;
    let bv = bin_value(x);
    assert(bv.len() == 5 + x.len());
    assert(b.subrange(i, i + 4) =~= le32(n)) by {
        assert forall|k: int| 0 <= k < 4 implies b.subrange(i, i + 4)[k] == le32(n)[k] by {
            assert(b.subrange(i, i + bv.len())[k] == bv[k]);
            assert(bv[k] == le32(n)[k]);
        }
    }
    assert(rd_le32(b, i) == n);
    assert(b[i + 4] == bv[4]) by {
        assert(b.subrange(i, i + bv.len())[4] == bv[4]);
    }
    assert(b.subrange(i + 5, i + 5 + n) =~= x) by {
        assert forall|k: int| 0 <= k < x.len() implies b.subrange(i + 5, i + 5 + n)[k] == x[k] by {
            assert(b.subrange(i, i + bv.len())[5 + k] == bv[5 + k]);
            assert(bv[5 + k] == x[k]);
        }
    }
}

/// A 64-bit integer value in place parses back to its value.
pub proof fn lemma_take_u64(b: Seq<u8>, i: int, v: u64)
    requires
        match_bytes(b, i, le64(v)),
    ensures
        take_u64(b, i) == Some((v, i + 8)),
{
    lemma_auto_spec_u64_to_from_le_bytes();
    assert(b.subrange(i, i + 8) =~= le64(v));
}

/// A document's bytes in place parse back as one embedded document.
pub proof fn lemma_take_doc(b: Seq<u8>, i: int, body: Seq<u8>)
    requires
        match_bytes(b, i, doc(body)),
        body.len() + 5 <= MAX_DOC,
    ensures
        take_doc(b, i) == Some((doc(body), i + body.len() + 5)),
{
    lemma_auto_spec_u32_to_from_le_bytes();
    let n: u32 = (body.len() + 5) as u32;
    let d = doc(body);
    assert(d.len() == 4 + body.len() + 1);
    assert(b.subrange(i, i + 4) =~= le32(n)) by {
        assert forall|k: int| 0 <= k < 4 implies b.subrange(i, i + 4)[k] == le32(n)[k] by {
            assert(b.subrange(i, i + d.len())[k] == d[k]);
            assert(d[k] == le32(n)[k]);
        }
    }
    assert(rd_le32(b, i) == n);
    assert(b[i + n - 1] == d[d.len() - 1]) by {
        assert(b.subrange(i, i + d.len())[d.len() - 1] == d[d.len() - 1]);
    }
    assert(d[d.len() - 1] == 0u8);
    assert(b.subrange(i, i + n) =~= d);
}

/// An element in place yields its value offset, and the value bytes
/// stand there.
pub proof fn lemma_expect_elem(b: Seq<u8>, i: int, tag: u8, key: Seq<u8>, value: Seq<u8>)
    requires
        match_bytes(b, i, elem(tag, key, value)),
    ensures
        expect_header(b, i, tag, key) == Some(i + 2 + key.len()),
        match_bytes(b, i + 2 + key.len(), value),
{
    assert(elem(tag, key, value) =~= (seq![tag] + key + seq![0u8]) + value);
    lemma_match_append(b, i, seq![tag] + key + seq![0u8], value);
}

/// A document's own bytes split back into its body.
pub proof fn lemma_parse_doc_of_doc(body: Seq<u8>)
    requires
        body.len() + 5 <= MAX_DOC,
    ensures
        parse_doc_body(doc(body)) == Some(body),
{
    lemma_auto_spec_u32_to_from_le_bytes();
    let n: u32 = (body.len() + 5) as u32;
    let d = doc(body);
    assert(d.len() == 4 + body.len() + 1);
    assert(d.subrange(0, 4) =~= le32(n));
    assert(rd_le32(d, 0) == n);
    assert(d[d.len() - 1] == 0u8);
    assert(d.subrange(4, d.len() - 1) =~= body);
}

/// An element header stands at `i` exactly when its three parts do.
pub proof fn lemma_header_iff(b: Seq<u8>, i: int, tag: u8, key: Seq<u8>)
    requires
        0 <= i,
    ensures
        match_bytes(b, i, seq![tag] + key + seq![0u8]) <==> {
            &&& i + key.len() + 2 <= b.len()
            &&& b[i] == tag
            &&& b.subrange(i + 1, i + 1 + key.len()) == key
            &&& b[i + 1 + key.len()] == 0u8
        },
{
    let pat = seq![tag] + key + seq![0u8];
    assert(pat.len() == key.len() + 2);
    if match_bytes(b, i, pat) {
        let w = b.subrange(i, i + pat.len());
        assert(b[i] == w[0]);
        assert(b[i + 1 + key.len()] == w[(1 + key.len()) as int]);
        assert(b.subrange(i + 1, i + 1 + key.len()) =~= key) by {
            assert forall|k: int| 0 <= k < key.len() implies b.subrange(i + 1, i + 1 + key.len())[k]
                == key[k] by {
                assert(w[1 + k] == pat[1 + k]);
            }
        }
    }
    if i + key.len() + 2 <= b.len() && b[i] == tag && b.subrange(i + 1, i + 1 + key.len()) == key
        && b[i + 1 + key.len()] == 0u8 {
        assert(b.subrange(i, i + pat.len()) =~= pat) by {
            assert forall|k: int| 0 <= k < pat.len() implies b.subrange(i, i + pat.len())[k]
                == pat[k] by {
                if 1 <= k < 1 + key.len() {
                    assert(b.subrange(i + 1, i + 1 + key.len())[k - 1] == key[k - 1]);
                }
            }
        }
    }
}

/// Checks an element header at offset `i` and returns the offset of
/// the element's value.
pub fn check_header(b: &[u8], i: usize, tag: u8, key: &[u8]) -> (r: Option<usize>)
    ensures
        ({
            let s = expect_header(b@, i as int, tag, key@);
            match r {
                Some(j) => s == Some(j as int),
                None => s is None,
            }
        }),
{
    proof {
        lemma_header_iff(b@, i as int, tag, key@);
    }
    let l = b.len();
    let kl = key.len();
    if l < 2 || i > l - 2 {
        return None;
    }
    if kl > l - i - 2 {
        return None;
    }
    if b[i] != tag {
        return None;
    }
    let mid = vstd::slice::slice_subrange(b, i + 1, i + 1 + kl);
    if !bytes_eq(mid, key) {
        return None;
    }
    if b[i + 1 + kl] != 0 {
        return None;
    }
    Some(i + 2 + kl)
}

/// Reads a string value at offset `i`, as `take_string` does.
pub fn parse_string_at(b: &[u8], i: usize) -> (r: Option<(Vec<u8>, usize)>)
    ensures
        ({
            let s = take_string(b@, i as int);
            match r {
                Some(p) => s is Some && p.0@ == s.unwrap().0 && p.1 as int == s.unwrap().1,
                None => s is None,
            }
        }),
{
    let l = b.len();
    if i > l || l - i < 4 {
        return None;
    }
    let n32 = read_le32(b, i);
    if n32 < 1 || n32 > MAX_DOC {
        return None;
    }
    let n = n32 as usize;
    if n > l - (i + 4) {
        return None;
    }
    if b[i + 4 + n - 1] != 0 {
        return None;
    }
    let v = vstd::slice::slice_to_vec(vstd::slice::slice_subrange(b, i + 4, i + 4 + n - 1));
    Some((v, i + 4 + n))
}

/// Reads a binary value at offset `i`, as `take_bin` does.
pub fn parse_bin_at(b: &[u8], i: usize) -> (r: Option<(Vec<u8>, usize)>)
    ensures
        ({
            let s = take_bin(b@, i as int);
            match r {
                Some(p) => s is Some && p.0@ == s.unwrap().0 && p.1 as int == s.unwrap().1,
                None => s is None,
            }
        }),
{
    let l = b.len();
    if i > l || l - i < 5 {
        return None;
    }
    let n32 = read_le32(b, i);
    if n32 > MAX_DOC {
        return None;
    }
    if b[i + 4] != 0 {
        return None;
    }
    let n = n32 as usize;
    if n > l - (i + 5) {
        return None;
    }
    let v = vstd::slice::slice_to_vec(vstd::slice::slice_subrange(b, i + 5, i + 5 + n));
    Some((v, i + 5 + n))
}

/// Reads a 64-bit integer value at offset `i`, as `take_u64` does.
pub fn parse_u64_at(b: &[u8], i: usize) -> (r: Option<(u64, usize)>)
    ensures
        ({
            let s = take_u64(b@, i as int);
            match r {
                Some(p) => s is Some && p.0 == s.unwrap().0 && p.1 as int == s.unwrap().1,
                None => s is None,
            }
        }),
{
    let l = b.len();
    if i > l || l - i < 8 {
        return None;
    }
    let v = read_le64(b, i);
    Some((v, i + 8))
}

/// Reads an embedded document at offset `i`, as `take_doc` does.
pub fn parse_doc_at(b: &[u8], i: usize) -> (r: Option<(Vec<u8>, usize)>)
    ensures
        ({
            let s = take_doc(b@, i as int);
            match r {
                Some(p) => s is Some && p.0@ == s.unwrap().0 && p.1 as int == s.unwrap().1,
                None => s is None,
            }
        }),
{
    let l = b.len();
    if i > l || l - i < 4 {
        return None;
    }
    let n32 = read_le32(b, i);
    if n32 < 5 || n32 > MAX_DOC {
        return None;
    }
    let n = n32 as usize;
    if n > l - i {
        return None;
    }
    if b[i + n - 1] != 0 {
        return None;
    }
    let v = vstd::slice::slice_to_vec(vstd::slice::slice_subrange(b, i, i + n));
    Some((v, i + n))
}

/// Appends one byte.
pub fn push_byte(out: &mut Vec<u8>, v: u8)
    ensures
        final(out)@ == old(out)@.push(v),
{
    out.push(v);
}

/// Appends a byte slice.
pub fn push_bytes(out: &mut Vec<u8>, b: &[u8])
    ensures
        final(out)@ == old(out)@ + b@,
{
    let mut i: usize = 0;
    while i < b.len()
        invariant
            i <= b@.len(),
            out@ == old(out)@ + b@.subrange(0, i as int),
        decreases b@.len() - i,
    {
        let v = b[i];
        out.push(v);
        proof {
            assert(old(out)@ + b@.subrange(0, i as int) + seq![b@[i as int]] =~= old(out)@
                + b@.subrange(0, i + 1));
        }
        i = i + 1;
    }
    proof {
        assert(b@.subrange(0, b@.len() as int) =~= b@);
    }
}

/// Appends the four little-endian bytes of `n`.
pub fn push_le32(out: &mut Vec<u8>, n: u32)
    ensures
        final(out)@ == old(out)@ + le32(n),
{
    let bs = vstd::bytes::u32_to_le_bytes(n);
    push_bytes(out, bs.as_slice());
}

/// Appends the eight little-endian bytes of `n`.
pub fn push_le64(out: &mut Vec<u8>, n: u64)
    ensures
        final(out)@ == old(out)@ + le64(n),
{
    let bs = vstd::bytes::u64_to_le_bytes(n);
    push_bytes(out, bs.as_slice());
}

/// Appends an element header: tag byte, name bytes, zero terminator.
pub fn push_elem_header(out: &mut Vec<u8>, tag: u8, key: &[u8])
    ensures
        final(out)@ == old(out)@ + seq![tag] + key@ + seq![0u8],
{
    out.push(tag);
    push_bytes(out, key);
    out.push(0u8);
}

/// Appends a string value from its UTF-8 bytes.
pub fn push_str_value(out: &mut Vec<u8>, x: &[u8])
    requires
        x@.len() + 1 <= MAX_DOC,
    ensures
        final(out)@ == old(out)@ + str_value_bytes(x@),
{
    let n: u32 = (x.len() as u32) + 1;
    push_le32(out, n);
    push_bytes(out, x);
    out.push(0u8);
    proof {
        assert(old(out)@ + le32(n) + x@ + seq![0u8] =~= old(out)@ + str_value_bytes(x@));
    }
}

/// Appends a binary value.
pub fn push_bin_value(out: &mut Vec<u8>, x: &[u8])
    requires
        x@.len() <= MAX_DOC,
    ensures
        final(out)@ == old(out)@ + bin_value(x@),
{
    let n: u32 = x.len() as u32;
    push_le32(out, n);
    out.push(0u8);
    push_bytes(out, x);
    proof {
        assert(old(out)@ + le32(n) + seq![0u8] + x@ =~= old(out)@ + bin_value(x@));
    }
}

/// Wraps finished element bytes into a document.
pub fn finish_doc(body: &Vec<u8>) -> (r: Vec<u8>)
    requires
        body@.len() + 5 <= MAX_DOC,
    ensures
        r@ == doc(body@),
{
    let mut out: Vec<u8> = Vec::new();
    let n: u32 = (body.len() as u32) + 5;
    push_le32(&mut out, n);
    push_bytes(&mut out, body.as_slice());
    out.push(0u8);
    proof {
        assert(seq![] + le32(n) + body@ + seq![0u8] =~= doc(body@));
    }
    out
}

/// Whether two byte slices hold the same bytes.
pub fn bytes_eq(a: &[u8], b: &[u8]) -> (r: bool)
    ensures
        r <==> a@ == b@,
{
    if a.len() != b.len() {
        return false;
    }
    let mut i: usize = 0;
    while i < a.len()
        invariant
            a@.len() == b@.len(),
            i <= a@.len(),
            forall|k: int| 0 <= k < i ==> a@[k] == b@[k],
        decreases a@.len() - i,
    {
        if a[i] != b[i] {
            return false;
        }
        i = i + 1;
    }
    proof {
        assert(a@ =~= b@);
    }
    true
}

/// Reads the 32-bit little-endian integer at offset `i`.
pub fn read_le32(b: &[u8], i: usize) -> (r: u32)
    requires
        i + 4 <= b@.len(),
    ensures
        r == rd_le32(b@, i as int),
{
    let l = b.len();
    let s = vstd::slice::slice_subrange(b, i, i + 4);
    vstd::bytes::u32_from_le_bytes(s)
}

/// Reads the 64-bit little-endian integer at offset `i`.
pub fn read_le64(b: &[u8], i: usize) -> (r: u64)
    requires
        i + 8 <= b@.len(),
    ensures
        r == rd_le64(b@, i as int),
{
    let l = b.len();
    let s = vstd::slice::slice_subrange(b, i, i + 8);
    vstd::bytes::u64_from_le_bytes(s)
}

} // verus!
