//! Byte-level primitives of the fixed-size codec: big-endian 16-bit
//! integers, space-padded 64-byte strings, zero-padded 1024-byte arrays,
//! and UTF-8 validation of string fields.

use vstd::prelude::*;

verus! {

/// Error of the fixed-size codec: a body that does not decode.
#[derive(Clone, Copy, Debug, PartialEq, Eq, Structural)]
pub enum Error {
    /// A field type outside the protocol's repertoire.
    NotSupported,
    /// The body has the wrong length or an invalid UTF-8 string field.
    WrongPacket,
}

/// `s` truncated or right-padded with `fill` to exactly `n` bytes.
pub open spec fn padded(s: Seq<u8>, n: int, fill: u8) -> Seq<u8> {
    if s.len() >= n {
        s.take(n)
    } else {
        s + Seq::new((n - s.len()) as nat, |i: int| fill)
    }
}

/// A string field on the wire: 64 bytes, space-padded.
pub open spec fn space_padded64(s: Seq<u8>) -> Seq<u8> {
    padded(s, 64, 0x20)
}

/// A byte-array field on the wire: 1024 bytes, zero-padded.
pub open spec fn zero_padded1024(s: Seq<u8>) -> Seq<u8> {
    padded(s, 1024, 0x00)
}

/// The two big-endian bytes of a signed 16-bit value.
pub open spec fn be16(v: i16) -> Seq<u8> {
    seq![((v as u16) / 256) as u8, ((v as u16) % 256) as u8]
}

/// The signed 16-bit value read from two big-endian bytes.
pub open spec fn i16_from_be(hi: u8, lo: u8) -> i16 {
    (((hi as u16) * 256) + (lo as u16)) as i16
}

pub proof fn lemma_be16_round_trip(v: i16)
    ensures
        i16_from_be(be16(v)[0], be16(v)[1]) == v,
{
    assert((((((v as u16) / 256) as u8) as u16) * 256 + ((((v as u16) % 256) as u8) as u16)) as i16
        == v) by (bit_vector);
}

pub proof fn lemma_i8_round_trip(v: i8)
    ensures
        (v as u8) as i8 == v,
{
    assert((v as u8) as i8 == v) by (bit_vector);
}

/// Appends the two big-endian bytes of `v`.
pub fn enc_i16(out: &mut Vec<u8>, v: i16)
    ensures
        final(out)@ == old(out)@ + be16(v),
{
    let u: u16 = v as u16;
    let hi: u8 = (u / 256) as u8;
    let lo: u8 = (u % 256) as u8;
    out.push(hi);
    out.push(lo);
    assert(out@ =~= old(out)@ + be16(v));
}

/// Appends the single byte of `v`.
pub fn enc_u8(out: &mut Vec<u8>, v: u8)
    ensures
        final(out)@ == old(out)@ + seq![v],
{
    out.push(v);
    assert(out@ =~= old(out)@ + seq![v]);
}

/// Appends the single byte of a signed 8-bit value.
pub fn enc_i8(out: &mut Vec<u8>, v: i8)
    ensures
        final(out)@ == old(out)@ + seq![v as u8],
{
    out.push(v as u8);
    assert(out@ =~= old(out)@ + seq![v as u8]);
}

/// Appends `s` truncated or padded with `fill` to exactly `n` bytes.
pub fn enc_padded(out: &mut Vec<u8>, s: &Vec<u8>, n: usize, fill: u8)
    ensures
        final(out)@ == old(out)@ + padded(s@, n as int, fill),
{
    let lim: usize = if s.len() < n {
        s.len()
    } else {
        n
    };
    let mut i: usize = 0;
    while i < lim
        invariant
            i <= lim,
            lim <= s.len(),
            lim <= n,
            lim == if s@.len() < n as int { s@.len() as int } else { n as int },
            out@ == old(out)@ + s@.take(i as int),
        decreases lim - i,
    {
        out.push(s[i]);
        assert(out@ =~= old(out)@ + s@.take(i + 1));
        i = i + 1;
    }
    while i < n
        invariant
            lim <= i <= n,
            lim == if s@.len() < n as int { s@.len() as int } else { n as int },
            out@ == old(out)@ + s@.take(lim as int) + Seq::new((i - lim) as nat, |j: int| fill),
        decreases n - i,
    {
        out.push(fill);
        assert(out@ =~= old(out)@ + s@.take(lim as int) + Seq::new(
            (i + 1 - lim) as nat,
            |j: int| fill,
        ));
        i = i + 1;
    }
    assert(out@ =~= old(out)@ + padded(s@, n as int, fill));
}

/// The byte at offset `off`.
pub fn read_u8(b: &Vec<u8>, off: usize) -> (r: u8)
    requires
        off < b@.len(),
    ensures
        r == b@[off as int],
{
    b[off]
}

/// The signed byte at offset `off`.
pub fn read_i8(b: &Vec<u8>, off: usize) -> (r: i8)
    requires
        off < b@.len(),
    ensures
        r == b@[off as int] as i8,
{
    b[off] as i8
}

/// The big-endian signed 16-bit value at offset `off`.
pub fn read_i16(b: &Vec<u8>, off: usize) -> (r: i16)
    requires
        off + 2 <= b@.len(),
    ensures
        r == i16_from_be(b@[off as int], b@[off as int + 1]),
{
    assert(off + 2 <= b.len());
    let hi: u16 = b[off] as u16;
    let lo: u16 = b[off + 1] as u16;
    #[verifier::truncate] ((hi * 256 + lo) as i16)
}

/// The `n` bytes starting at offset `off`, copied out.
pub fn read_chunk(b: &Vec<u8>, off: usize, n: usize) -> (r: Vec<u8>)
    requires
        off + n <= b@.len(),
    ensures
        r@ == b@.subrange(off as int, off as int + n as int),
{
    let mut r: Vec<u8> = Vec::new();
    let mut i: usize = 0;
    while i < n
        invariant
            i <= n,
            off + n <= b@.len(),
            r@ == b@.subrange(off as int, off as int + i as int),
        decreases n - i,
    {
        assert(off + i < b.len());
        r.push(b[off + i]);
        assert(r@ =~= b@.subrange(off as int, off as int + i as int + 1));
        i = i + 1;
    }
    r
}

/// A copy of the byte vector.
pub fn copy_bytes(v: &Vec<u8>) -> (r: Vec<u8>)
    ensures
        r@ == v@,
{
    let n = v.len();
    let r = read_chunk(v, 0, n);
    assert(r@ =~= v@);
    r
}

/// Appends all of `s`.
pub fn push_all(out: &mut Vec<u8>, s: &Vec<u8>)
    ensures
        final(out)@ == old(out)@ + s@,
{
    let n = s.len();
    let mut i: usize = 0;
    while i < n
        invariant
            i <= n,
            n == s@.len(),
            out@ == old(out)@ + s@.take(i as int),
        decreases n - i,
    {
        out.push(s[i]);
        assert(out@ =~= old(out)@ + s@.take(i + 1));
        i = i + 1;
    }
    assert(out@ =~= old(out)@ + s@);
}

/// Whether two byte vectors hold the same bytes.
pub fn bytes_eq(a: &Vec<u8>, b: &Vec<u8>) -> (r: bool)
    ensures
        r == (a@ == b@),
{
    let n = a.len();
    if n != b.len() {
        return false;
    }
    let mut i: usize = 0;
    while i < n
        invariant
            i <= n,
            n == a@.len(),
            n == b@.len(),
            forall|j: int| 0 <= j < i ==> a@[j] == b@[j],
        decreases n - i,
    {
        if a[i] != b[i] {
            return false;
        }
        i = i + 1;
    }
    proof {
        assert(a@ =~= b@);
    }
    true
}

/// A UTF-8 continuation byte.
pub open spec fn is_cont(b: u8) -> bool {
    0x80 <= b <= 0xBF
}

/// The byte sequence is well-formed UTF-8 (the shortest-form byte grammar).
pub open spec fn is_utf8(s: Seq<u8>) -> bool
    decreases s.len(),
{
    if s.len() == 0 {
        true
    } else {
        let b0 = s[0];
        if b0 < 0x80 {
            is_utf8(s.skip(1))
        } else if b0 < 0xC2 {
            false
        } else if b0 <= 0xDF {
            s.len() >= 2 && is_cont(s[1]) && is_utf8(s.skip(2))
        } else if b0 == 0xE0 {
            s.len() >= 3 && 0xA0 <= s[1] <= 0xBF && is_cont(s[2]) && is_utf8(s.skip(3))
        } else if b0 == 0xED {
            s.len() >= 3 && 0x80 <= s[1] <= 0x9F && is_cont(s[2]) && is_utf8(s.skip(3))
        } else if b0 <= 0xEF {
            s.len() >= 3 && is_cont(s[1]) && is_cont(s[2]) && is_utf8(s.skip(3))
        } else if b0 == 0xF0 {
            s.len() >= 4 && 0x90 <= s[1] <= 0xBF && is_cont(s[2]) && is_cont(s[3]) && is_utf8(
                s.skip(4),
            )
        } else if b0 <= 0xF3 {
            s.len() >= 4 && is_cont(s[1]) && is_cont(s[2]) && is_cont(s[3]) && is_utf8(s.skip(4))
        } else if b0 == 0xF4 {
            s.len() >= 4 && 0x80 <= s[1] <= 0x8F && is_cont(s[2]) && is_cont(s[3]) && is_utf8(
                s.skip(4),
            )
        } else {
            false
        }
    }
}

/// Whether the whole vector is well-formed UTF-8.
pub fn check_utf8(v: &Vec<u8>) -> (r: bool)
    ensures
        r == is_utf8(v@),
{
    let n: usize = v.len();
    let mut pos: usize = 0;
    assert(v@.skip(0) =~= v@);
    loop
        invariant
            pos <= n,
            n == v@.len(),
            is_utf8(v@) == is_utf8(v@.skip(pos as int)),
        decreases n - pos,
    {
        if pos == n {
            assert(v@.skip(pos as int) =~= Seq::<u8>::empty());
            return true;
        }
        let ghost s = v@.skip(pos as int);
        assert(s[0] == v@[pos as int]);
        let b0 = v[pos];
        let need: usize = if b0 < 0x80 {
            1
        } else if b0 < 0xC2 {
            return false;
        } else if b0 <= 0xDF {
            2
        } else if b0 <= 0xEF {
            3
        } else if b0 <= 0xF4 {
            4
        } else {
            return false;
        };
        if n - pos < need {
            return false;
        }
        if need >= 2 {
            assert(s[1] == v@[pos as int + 1]);
            let b1 = v[pos + 1];
            let ok1: bool = if b0 == 0xE0 {
                0xA0 <= b1 && b1 <= 0xBF
            } else if b0 == 0xED {
                0x80 <= b1 && b1 <= 0x9F
            } else if b0 == 0xF0 {
                0x90 <= b1 && b1 <= 0xBF
            } else if b0 == 0xF4 {
                0x80 <= b1 && b1 <= 0x8F
            } else {
                0x80 <= b1 && b1 <= 0xBF
            };
            if !ok1 {
                return false;
            }
        }
        if need >= 3 {
            assert(s[2] == v@[pos as int + 2]);
            let b2 = v[pos + 2];
            if !(0x80 <= b2 && b2 <= 0xBF) {
                return false;
            }
        }
        if need >= 4 {
            assert(s[3] == v@[pos as int + 3]);
            let b3 = v[pos + 3];
            if !(0x80 <= b3 && b3 <= 0xBF) {
                return false;
            }
        }
        assert(s.skip(need as int) =~= v@.skip(pos as int + need as int));
        pos = pos + need;
    }
}

/// Concatenating well-formed UTF-8 sequences yields well-formed UTF-8.
pub proof fn lemma_utf8_concat(a: Seq<u8>, b: Seq<u8>)
    requires
        is_utf8(a),
        is_utf8(b),
    ensures
        is_utf8(a + b),
    decreases a.len(),
{
    if a.len() == 0 {
        assert(a + b =~= b);
    } else {
        let b0 = a[0];
        let n: int = if b0 < 0x80 {
            1
        } else if b0 <= 0xDF {
            2
        } else if b0 <= 0xEF {
            3
        } else {
            4
        };
        lemma_utf8_concat(a.skip(n), b);
        assert(a.skip(n) + b =~= (a + b).skip(n));
        assert((a + b)[0] == a[0]);
        assert(a.len() >= 2 ==> (a + b)[1] == a[1]);
        assert(a.len() >= 3 ==> (a + b)[2] == a[2]);
        assert(a.len() >= 4 ==> (a + b)[3] == a[3]);
    }
}

/// A sequence of plain ASCII bytes is well-formed UTF-8.
pub proof fn lemma_ascii_utf8(s: Seq<u8>)
    requires
        forall|i: int| 0 <= i < s.len() ==> s[i] < 0x80,
    ensures
        is_utf8(s),
    decreases s.len(),
{
    if s.len() > 0 {
        lemma_ascii_utf8(s.skip(1));
    }
}

/// A well-formed string of at most 64 bytes stays well formed once
/// space-padded for the wire.
pub proof fn lemma_space_padded_utf8(s: Seq<u8>)
    requires
        is_utf8(s),
        s.len() <= 64,
    ensures
        is_utf8(space_padded64(s)),
{
    if s.len() == 64 {
        assert(space_padded64(s) =~= s);
    } else {
        let fill = Seq::new((64 - s.len()) as nat, |i: int| 0x20u8);
        lemma_ascii_utf8(fill);
        lemma_utf8_concat(s, fill);
    }
}

} // verus!
