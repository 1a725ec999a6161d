//! The canonical byte encoding.
//!
//! One deterministic encoding serves three duties: the signature pre-image
//! of every envelope, the hash pre-image of document identifiers, and the
//! wire form of protocol messages. Integers are little-endian and fixed
//! width; byte strings and lists carry a 64-bit length; enums carry a
//! one-byte tag.

use vstd::prelude::*;

use vstd::bytes::{
    spec_u32_from_le_bytes, spec_u32_to_le_bytes, spec_u64_from_le_bytes, spec_u64_to_le_bytes,
    u32_from_le_bytes, u32_to_le_bytes, u64_from_le_bytes, u64_to_le_bytes,
    lemma_auto_spec_u32_to_from_le_bytes, lemma_auto_spec_u64_to_from_le_bytes,
};
use vstd::slice::{slice_subrange, slice_to_vec};
use vstd::utf8::{decode_utf8, encode_utf8, valid_utf8};

verus! {

/// The largest length a 64-bit prefix can carry.
pub open spec fn len_max() -> int {
    0x1_0000_0000_0000_0000
}

/// A type with a canonical byte encoding.
///
/// `spec_enc` gives the encoding of a value's view; `spec_dec` parses one
/// value from a position; `wire_wf` bounds the lengths under which an
/// encoding parses back to its value, and holds of the view of every value
/// an implementation can hold. `lemma_dec_enc` is the round-trip law.
pub trait Wire: View + Sized {
    /// The canonical byte encoding of a view.
    spec fn spec_enc(v: Self::V) -> Seq<u8>;

    /// Parses one value from position `i`; `None` when the bytes do not
    /// hold one.
    spec fn spec_dec(s: Seq<u8>, i: int) -> Option<(Self::V, int)>;

    /// Length bounds under which `spec_enc` parses back.
    spec fn wire_wf(v: Self::V) -> bool;

    /// Appends the canonical encoding of `self` to `out`.
    fn enc(&self, out: &mut Vec<u8>)
        ensures
            final(out)@ == old(out)@ + Self::spec_enc(self@),
            Self::wire_wf(self@),
    ;

    /// Parses one value from `buf` at `pos`, mirroring `spec_dec`.
    fn dec(buf: &Vec<u8>, pos: usize) -> (r: Option<(Self, usize)>)
        ensures
            match Self::spec_dec(buf@, pos as int) {
                Some(ve) => {
                    &&& r matches Some(p)
                    &&& r.unwrap().0@ == ve.0
                    &&& r.unwrap().1 as int == ve.1
                    &&& ve.1 <= buf@.len()
                },
                None => r is None,
            },
    ;

    /// Parsing an encoding embedded at position `i` yields the encoded
    /// value and stops right after it.
    proof fn lemma_dec_enc(v: Self::V, s: Seq<u8>, i: int)
        requires
            Self::wire_wf(v),
            0 <= i,
            i + Self::spec_enc(v).len() <= s.len(),
            s.subrange(i, i + Self::spec_enc(v).len() as int) == Self::spec_enc(v),
        ensures
            Self::spec_dec(s, i) == Some((v, i + Self::spec_enc(v).len() as int)),
    ;
}

// ------------------------------------------------------------------
// Primitives
// ------------------------------------------------------------------

pub open spec fn enc_u8(x: u8) -> Seq<u8> {
    seq![x]
}

pub open spec fn dec_u8(s: Seq<u8>, i: int) -> Option<(u8, int)> {
    if 0 <= i && i + 1 <= s.len() {
        Some((s[i], i + 1))
    } else {
        None
    }
}

pub proof fn lemma_dec_enc_u8(x: u8, s: Seq<u8>, i: int)
    requires
        0 <= i,
        i + 1 <= s.len(),
        s.subrange(i, i + 1) == enc_u8(x),
    ensures
        dec_u8(s, i) == Some((x, i + 1)),
{
    assert(s[i] == s.subrange(i, i + 1)[0]);
}

pub open spec fn enc_u32(x: u32) -> Seq<u8> {
    spec_u32_to_le_bytes(x)
}

pub open spec fn dec_u32(s: Seq<u8>, i: int) -> Option<(u32, int)> {
    if 0 <= i && i + 4 <= s.len() {
        Some((spec_u32_from_le_bytes(s.subrange(i, i + 4)), i + 4))
    } else {
        None
    }
}

pub proof fn lemma_dec_enc_u32(x: u32, s: Seq<u8>, i: int)
    requires
        0 <= i,
        i + 4 <= s.len(),
        s.subrange(i, i + 4) == enc_u32(x),
    ensures
        dec_u32(s, i) == Some((x, i + 4)),
{
    lemma_auto_spec_u32_to_from_le_bytes();
    assert(spec_u32_to_le_bytes(x).len() == 4);
}

pub open spec fn enc_u64(x: u64) -> Seq<u8> {
    spec_u64_to_le_bytes(x)
}

pub open spec fn dec_u64(s: Seq<u8>, i: int) -> Option<(u64, int)> {
    if 0 <= i && i + 8 <= s.len() {
        Some((spec_u64_from_le_bytes(s.subrange(i, i + 8)), i + 8))
    } else {
        None
    }
}

pub proof fn lemma_dec_enc_u64(x: u64, s: Seq<u8>, i: int)
    requires
        0 <= i,
        i + 8 <= s.len(),
        s.subrange(i, i + 8) == enc_u64(x),
    ensures
        dec_u64(s, i) == Some((x, i + 8)),
{
    lemma_auto_spec_u64_to_from_le_bytes();
    assert(spec_u64_to_le_bytes(x).len() == 8);
}

/// A byte string: a 64-bit length followed by the bytes.
pub open spec fn enc_bytes(b: Seq<u8>) -> Seq<u8> {
    enc_u64(b.len() as u64) + b
}

pub open spec fn dec_bytes(s: Seq<u8>, i: int) -> Option<(Seq<u8>, int)> {
    match dec_u64(s, i) {
        Some((n, j)) => {
            if j + n as int <= s.len() {
                Some((s.subrange(j, j + n as int), j + n as int))
            } else {
                None
            }
        },
        None => None,
    }
}

pub proof fn lemma_dec_enc_bytes(b: Seq<u8>, s: Seq<u8>, i: int)
    requires
        b.len() < len_max(),
        0 <= i,
        i + enc_bytes(b).len() <= s.len(),
        s.subrange(i, i + enc_bytes(b).len() as int) == enc_bytes(b),
    ensures
        dec_bytes(s, i) == Some((b, i + enc_bytes(b).len() as int)),
{
    lemma_auto_spec_u64_to_from_le_bytes();
    let w = enc_bytes(b).len() as int;
    assert(s.subrange(i, i + 8) =~= s.subrange(i, i + w).subrange(0, 8));
    assert(s.subrange(i, i + 8) == enc_u64(b.len() as u64));
    assert(dec_u64(s, i) == Some((b.len() as u64, i + 8)));
    assert(s.subrange(i + 8, i + w) =~= s.subrange(i, i + w).subrange(8, w));
    assert(s.subrange(i + 8, i + w) =~= b);
}

/// A string: its UTF-8 bytes as a byte string.
pub open spec fn enc_str(cs: Seq<char>) -> Seq<u8> {
    enc_bytes(encode_utf8(cs))
}

pub open spec fn dec_str(s: Seq<u8>, i: int) -> Option<(Seq<char>, int)> {
    match dec_bytes(s, i) {
        Some((b, j)) => {
            if valid_utf8(b) {
                Some((decode_utf8(b), j))
            } else {
                None
            }
        },
        None => None,
    }
}

pub proof fn lemma_dec_enc_str(cs: Seq<char>, s: Seq<u8>, i: int)
    requires
        encode_utf8(cs).len() < len_max(),
        0 <= i,
        i + enc_str(cs).len() <= s.len(),
        s.subrange(i, i + enc_str(cs).len() as int) == enc_str(cs),
    ensures
        dec_str(s, i) == Some((cs, i + enc_str(cs).len() as int)),
{
    lemma_dec_enc_bytes(encode_utf8(cs), s, i);
    vstd::utf8::encode_utf8_valid_utf8(cs);
    vstd::utf8::encode_utf8_decode_utf8(cs);
}

/// The lengths of the primitive encodings.
pub proof fn lemma_prim_lens()
    ensures
        forall|x: u64| (#[trigger] enc_u64(x)).len() == 8,
        forall|x: u32| (#[trigger] enc_u32(x)).len() == 4,
        forall|x: u8| (#[trigger] enc_u8(x)).len() == 1,
        forall|b: Seq<u8>| (#[trigger] enc_bytes(b)).len() == 8 + b.len(),
        forall|c: Seq<char>| (#[trigger] enc_str(c)).len() == 8 + encode_utf8(c).len(),
{
    lemma_auto_spec_u64_to_from_le_bytes();
    lemma_auto_spec_u32_to_from_le_bytes();
    assert forall|x: u64| (#[trigger] enc_u64(x)).len() == 8 by {
        assert(spec_u64_to_le_bytes(x).len() == 8);
    }
    assert forall|x: u32| (#[trigger] enc_u32(x)).len() == 4 by {
        assert(spec_u32_to_le_bytes(x).len() == 4);
    }
}

/// Splits knowledge of an embedded concatenation into its two halves.
pub proof fn lemma_split_prefix(s: Seq<u8>, i: int, a: Seq<u8>, b: Seq<u8>)
    requires
        0 <= i,
        i + a.len() + b.len() <= s.len(),
        s.subrange(i, i + a.len() + b.len()) == a + b,
    ensures
        s.subrange(i, i + a.len() as int) == a,
        s.subrange(i + a.len() as int, i + a.len() + b.len()) == b,
{
    assert(s.subrange(i, i + a.len() as int) =~= (a + b).subrange(0, a.len() as int));
    assert((a + b).subrange(0, a.len() as int) =~= a);
    assert(s.subrange(i + a.len() as int, i + a.len() + b.len()) =~= (a + b).subrange(
        a.len() as int,
        (a + b).len() as int,
    ));
    assert((a + b).subrange(a.len() as int, (a + b).len() as int) =~= b);
}

// ------------------------------------------------------------------
// Executable primitives
// ------------------------------------------------------------------

pub fn enc_u8_v(x: u8, out: &mut Vec<u8>)
    ensures
        final(out)@ == old(out)@ + enc_u8(x),
{
    out.push(x);
    proof {
        assert(out@ =~= old(out)@ + enc_u8(x));
    }
}

pub fn dec_u8_v(buf: &Vec<u8>, pos: usize) -> (r: Option<(u8, usize)>)
    ensures
        match dec_u8(buf@, pos as int) {
            Some(ve) => r matches Some(p) && p.0 == ve.0 && p.1 as int == ve.1 && ve.1
                <= buf@.len(),
            None => r is None,
        },
{
    if pos < buf.len() {
        Some((buf[pos], pos + 1))
    } else {
        None
    }
}

pub fn enc_u32_v(x: u32, out: &mut Vec<u8>)
    ensures
        final(out)@ == old(out)@ + enc_u32(x),
{
    let mut b = u32_to_le_bytes(x);
    out.append(&mut b);
}

pub fn dec_u32_v(buf: &Vec<u8>, pos: usize) -> (r: Option<(u32, usize)>)
    ensures
        match dec_u32(buf@, pos as int) {
            Some(ve) => r matches Some(p) && p.0 == ve.0 && p.1 as int == ve.1 && ve.1
                <= buf@.len(),
            None => r is None,
        },
{
    if buf.len() >= 4 && pos <= buf.len() - 4 {
        let x = u32_from_le_bytes(slice_subrange(buf.as_slice(), pos, pos + 4));
        Some((x, pos + 4))
    } else {
        None
    }
}

pub fn enc_u64_v(x: u64, out: &mut Vec<u8>)
    ensures
        final(out)@ == old(out)@ + enc_u64(x),
{
    let mut b = u64_to_le_bytes(x);
    out.append(&mut b);
}

pub fn dec_u64_v(buf: &Vec<u8>, pos: usize) -> (r: Option<(u64, usize)>)
    ensures
        match dec_u64(buf@, pos as int) {
            Some(ve) => r matches Some(p) && p.0 == ve.0 && p.1 as int == ve.1 && ve.1
                <= buf@.len(),
            None => r is None,
        },
{
    if buf.len() >= 8 && pos <= buf.len() - 8 {
        let x = u64_from_le_bytes(slice_subrange(buf.as_slice(), pos, pos + 8));
        Some((x, pos + 8))
    } else {
        None
    }
}

pub fn enc_bytes_v(b: &Vec<u8>, out: &mut Vec<u8>)
    ensures
        final(out)@ == old(out)@ + enc_bytes(b@),
        b@.len() < len_max(),
{
    enc_u64_v(b.len() as u64, out);
    out.extend_from_slice(b.as_slice());
    proof {
        assert(out@ =~= old(out)@ + enc_bytes(b@));
    }
}

pub fn dec_bytes_v(buf: &Vec<u8>, pos: usize) -> (r: Option<(Vec<u8>, usize)>)
    ensures
        match dec_bytes(buf@, pos as int) {
            Some(ve) => {
                &&& r matches Some(p)
                &&& r.unwrap().0@ == ve.0
                &&& r.unwrap().1 as int == ve.1
                &&& ve.1 <= buf@.len()
            },
            None => r is None,
        },
{
    let (n, j) = match dec_u64_v(buf, pos) {
        Some(p) => p,
        None => {
            return None;
        },
    };
    if n <= (buf.len() - j) as u64 {
        let end = j + (n as usize);
        let payload = slice_to_vec(slice_subrange(buf.as_slice(), j, end));
        Some((payload, end))
    } else {
        None
    }
}

/// Relies on std's String::from_utf8: succeeds exactly on valid UTF-8, and
/// the returned string decodes those bytes.
#[verifier::external_body]
fn string_from_utf8(v: Vec<u8>) -> (r: Option<String>)
    ensures
        r is Some <==> valid_utf8(v@),
        r matches Some(s) ==> s@ == decode_utf8(v@),
{
    String::from_utf8(v).ok()
}

pub fn enc_str_v(x: &String, out: &mut Vec<u8>)
    ensures
        final(out)@ == old(out)@ + enc_str(x@),
        encode_utf8(x@).len() < len_max(),
{
    let b = x.as_str().as_bytes();
    enc_u64_v(b.len() as u64, out);
    out.extend_from_slice(b);
    proof {
        assert(out@ =~= old(out)@ + enc_str(x@));
    }
}

pub fn dec_str_v(buf: &Vec<u8>, pos: usize) -> (r: Option<(String, usize)>)
    ensures
        match dec_str(buf@, pos as int) {
            Some(ve) => {
                &&& r matches Some(p)
                &&& r.unwrap().0@ == ve.0
                &&& r.unwrap().1 as int == ve.1
                &&& ve.1 <= buf@.len()
            },
            None => r is None,
        },
{
    let (b, j) = match dec_bytes_v(buf, pos) {
        Some(p) => p,
        None => {
            return None;
        },
    };
    match string_from_utf8(b) {
        Some(s) => Some((s, j)),
        None => None,
    }
}

// ------------------------------------------------------------------
// Lists of encodable values
// ------------------------------------------------------------------

/// The views of a sequence of values.
pub open spec fn seq_views<T: View>(s: Seq<T>) -> Seq<T::V> {
    s.map_values(|t: T| t@)
}

/// The concatenated encodings of a sequence of views.
pub open spec fn spec_enc_items<T: Wire>(vs: Seq<T::V>) -> Seq<u8>
    decreases vs.len(),
{
    if vs.len() == 0 {
        Seq::empty()
    } else {
        T::spec_enc(vs[0]) + spec_enc_items::<T>(vs.skip(1))
    }
}

/// A list: a 64-bit count followed by the encodings of its items.
pub open spec fn spec_enc_list<T: Wire>(vs: Seq<T::V>) -> Seq<u8> {
    enc_u64(vs.len() as u64) + spec_enc_items::<T>(vs)
}

/// Parses `n` values in sequence.
pub open spec fn spec_dec_items<T: Wire>(s: Seq<u8>, i: int, n: nat) -> Option<(Seq<T::V>, int)>
    decreases n,
{
    if n == 0 {
        Some((Seq::empty(), i))
    } else {
        match T::spec_dec(s, i) {
            Some((v, j)) => match spec_dec_items::<T>(s, j, (n - 1) as nat) {
                Some((vs, k)) => Some((seq![v] + vs, k)),
                None => None,
            },
            None => None,
        }
    }
}

/// Parses a list: a count, then that many values.
pub open spec fn spec_dec_list<T: Wire>(s: Seq<u8>, i: int) -> Option<(Seq<T::V>, int)> {
    match dec_u64(s, i) {
        Some((n, j)) => spec_dec_items::<T>(s, j, n as nat),
        None => None,
    }
}

/// Every well-formed list is short enough for its count prefix and holds
/// well-formed items.
pub open spec fn list_wf<T: Wire>(vs: Seq<T::V>) -> bool {
    &&& vs.len() < len_max()
    &&& forall|k: int| 0 <= k < vs.len() ==> T::wire_wf(#[trigger] vs[k])
}

/// Appending one view to a sequence appends its encoding.
pub proof fn lemma_enc_items_push<T: Wire>(vs: Seq<T::V>, v: T::V)
    ensures
        spec_enc_items::<T>(vs.push(v)) == spec_enc_items::<T>(vs) + T::spec_enc(v),
    decreases vs.len(),
{
    let p = vs.push(v);
    if vs.len() == 0 {
        assert(p[0] == v);
        assert(p.skip(1) =~= Seq::<T::V>::empty());
        assert(spec_enc_items::<T>(Seq::<T::V>::empty()) =~= Seq::<u8>::empty());
        assert(spec_enc_items::<T>(p) == T::spec_enc(p[0]) + spec_enc_items::<T>(p.skip(1)));
        assert(spec_enc_items::<T>(p) =~= T::spec_enc(v));
        assert(spec_enc_items::<T>(vs) + T::spec_enc(v) =~= T::spec_enc(v));
    } else {
        assert(p[0] == vs[0]);
        assert(p.skip(1) =~= vs.skip(1).push(v));
        lemma_enc_items_push::<T>(vs.skip(1), v);
        assert(spec_enc_items::<T>(p) == T::spec_enc(p[0]) + spec_enc_items::<T>(p.skip(1)));
        assert(spec_enc_items::<T>(vs) == T::spec_enc(vs[0]) + spec_enc_items::<T>(vs.skip(1)));
        assert(T::spec_enc(vs[0]) + (spec_enc_items::<T>(vs.skip(1)) + T::spec_enc(v)) =~= (
        T::spec_enc(vs[0]) + spec_enc_items::<T>(vs.skip(1))) + T::spec_enc(v));
    }
}

/// Parsing the concatenation of encodings yields the encoded views.
pub proof fn lemma_dec_enc_items<T: Wire>(vs: Seq<T::V>, s: Seq<u8>, i: int)
    requires
        forall|k: int| 0 <= k < vs.len() ==> T::wire_wf(#[trigger] vs[k]),
        0 <= i,
        i + spec_enc_items::<T>(vs).len() <= s.len(),
        s.subrange(i, i + spec_enc_items::<T>(vs).len() as int) == spec_enc_items::<T>(vs),
    ensures
        spec_dec_items::<T>(s, i, vs.len()) == Some((vs, i + spec_enc_items::<T>(vs).len() as int)),
    decreases vs.len(),
{
    if vs.len() == 0 {
        assert(spec_dec_items::<T>(s, i, 0) == Some((Seq::<T::V>::empty(), i)));
        assert(vs =~= Seq::<T::V>::empty());
        assert(spec_enc_items::<T>(vs) =~= Seq::<u8>::empty());
    } else {
        let head = vs[0];
        let rest = vs.skip(1);
        let hw = T::spec_enc(head).len() as int;
        let rw = spec_enc_items::<T>(rest).len() as int;
        assert(spec_enc_items::<T>(vs) == T::spec_enc(head) + spec_enc_items::<T>(rest));
        assert(T::wire_wf(vs[0]));
        assert((T::spec_enc(head) + spec_enc_items::<T>(rest)).subrange(0, hw) =~= T::spec_enc(
            head,
        ));
        assert(s.subrange(i, i + hw) =~= s.subrange(i, i + hw + rw).subrange(0, hw));
        T::lemma_dec_enc(head, s, i);
        assert((T::spec_enc(head) + spec_enc_items::<T>(rest)).subrange(hw, hw + rw)
            =~= spec_enc_items::<T>(rest));
        assert(s.subrange(i + hw, i + hw + rw) =~= s.subrange(i, i + hw + rw).subrange(
            hw,
            hw + rw,
        ));
        assert forall|k: int| 0 <= k < rest.len() implies T::wire_wf(#[trigger] rest[k]) by {
            assert(rest[k] == vs[k + 1]);
        }
        lemma_dec_enc_items::<T>(rest, s, i + hw);
        assert(seq![head] + rest =~= vs);
    }
}

/// Parsing an encoded list yields the encoded views.
pub proof fn lemma_dec_enc_list<T: Wire>(vs: Seq<T::V>, s: Seq<u8>, i: int)
    requires
        list_wf::<T>(vs),
        0 <= i,
        i + spec_enc_list::<T>(vs).len() <= s.len(),
        s.subrange(i, i + spec_enc_list::<T>(vs).len() as int) == spec_enc_list::<T>(vs),
    ensures
        spec_dec_list::<T>(s, i) == Some((vs, i + spec_enc_list::<T>(vs).len() as int)),
{
    lemma_auto_spec_u64_to_from_le_bytes();
    assert(spec_u64_to_le_bytes(vs.len() as u64).len() == 8);
    let w = spec_enc_list::<T>(vs).len() as int;
    assert((enc_u64(vs.len() as u64) + spec_enc_items::<T>(vs)).subrange(0, 8) =~= enc_u64(
        vs.len() as u64,
    ));
    assert(s.subrange(i, i + 8) =~= s.subrange(i, i + w).subrange(0, 8));
    assert(dec_u64(s, i) == Some((vs.len() as u64, i + 8)));
    assert((enc_u64(vs.len() as u64) + spec_enc_items::<T>(vs)).subrange(8, w)
        =~= spec_enc_items::<T>(vs));
    assert(s.subrange(i + 8, i + w) =~= s.subrange(i, i + w).subrange(8, w));
    lemma_dec_enc_items::<T>(vs, s, i + 8);
}

/// Appends the canonical encoding of a list of values.
pub fn enc_list_v<T: Wire>(items: &Vec<T>, out: &mut Vec<u8>)
    ensures
        final(out)@ == old(out)@ + spec_enc_list::<T>(seq_views(items@)),
        list_wf::<T>(seq_views(items@)),
{
    enc_u64_v(items.len() as u64, out);
    let ghost base = out@;
    let n = items.len();
    for i in 0..n
        invariant
            n == items@.len(),
            out@ == base + spec_enc_items::<T>(seq_views(items@.take(i as int))),
            forall|k: int| 0 <= k < i ==> T::wire_wf(#[trigger] seq_views(items@)[k]),
    {
        proof {
            assert(seq_views(items@.take(i + 1)) =~= seq_views(items@.take(i as int)).push(
                items@[i as int]@,
            ));
            lemma_enc_items_push::<T>(seq_views(items@.take(i as int)), items@[i as int]@);
        }
        items[i].enc(out);
        proof {
            assert(seq_views(items@)[i as int] == items@[i as int]@);
        }
    }
    proof {
        assert(seq_views(items@.take(n as int)) =~= seq_views(items@));
        assert(out@ =~= old(out)@ + spec_enc_list::<T>(seq_views(items@)));
    }
}

/// Parses a list of values, mirroring `spec_dec_list`.
pub fn dec_list_v<T: Wire>(buf: &Vec<u8>, pos: usize) -> (r: Option<(Vec<T>, usize)>)
    ensures
        match spec_dec_list::<T>(buf@, pos as int) {
            Some(ve) => {
                &&& r matches Some(p)
                &&& seq_views(r.unwrap().0@) == ve.0
                &&& r.unwrap().1 as int == ve.1
                &&& ve.1 <= buf@.len()
            },
            None => r is None,
        },
{
    let (n, start) = match dec_u64_v(buf, pos) {
        Some(p) => p,
        None => {
            return None;
        },
    };
    let mut items: Vec<T> = Vec::new();
    let mut cur = start;
    let mut done: u64 = 0;
    proof {
        assert(seq_views(items@) =~= Seq::<T::V>::empty());
        match spec_dec_items::<T>(buf@, start as int, n as nat) {
            Some(ve) => {
                assert(seq_views(items@) + ve.0 =~= ve.0);
            },
            None => {},
        }
    }
    while done < n
        invariant
            done <= n,
            cur <= buf@.len(),
            dec_u64(buf@, pos as int) == Some::<(u64, int)>((n, start as int)),
            spec_dec_items::<T>(buf@, start as int, n as nat) == match spec_dec_items::<T>(
                buf@,
                cur as int,
                (n - done) as nat,
            ) {
                Some(ve) => Some::<(Seq<T::V>, int)>((seq_views(items@) + ve.0, ve.1)),
                None => None::<(Seq<T::V>, int)>,
            },
        decreases n - done,
    {
        match T::dec(buf, cur) {
            Some((item, next)) => {
                proof {
                    match spec_dec_items::<T>(buf@, next as int, (n - done - 1) as nat) {
                        Some(te) => {
                            assert(seq_views(items@.push(item)) =~= seq_views(items@).push(
                                item@,
                            ));
                            assert(seq_views(items@) + (seq![item@] + te.0) =~= seq_views(
                                items@.push(item),
                            ) + te.0);
                        },
                        None => {},
                    }
                }
                items.push(item);
                cur = next;
                done = done + 1;
            },
            None => {
                proof {
                    assert((n - done) as nat != 0);
                    assert(spec_dec_items::<T>(buf@, cur as int, (n - done) as nat) is None);
                    assert(spec_dec_items::<T>(buf@, start as int, n as nat) is None);
                }
                return None;
            },
        }
    }
    proof {
        assert(spec_dec_items::<T>(buf@, cur as int, 0) == Some(
            (Seq::<T::V>::empty(), cur as int),
        ));
        assert(seq_views(items@) + Seq::<T::V>::empty() =~= seq_views(items@));
    }
    Some((items, cur))
}

} // verus!
