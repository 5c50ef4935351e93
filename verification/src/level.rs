//! The level streamer: gzip-compresses the world (a four-byte big-endian
//! volume header followed by the grid bytes) and splits the stream into
//! 1024-byte chunks for transfer.

use vstd::prelude::*;

use crate::codec::zero_padded1024;
use crate::server::LevelDataChunk;
use crate::terrain::Terrain;

verus! {

/// The gzip stream that compressing `data` at the fast setting produces.
/// The backend is a pure function of its input, so the result depends on
/// the bytes alone.
pub uninterp spec fn gzip_fast_of(data: Seq<u8>) -> Seq<u8>;

/// Relies on flate2's write::GzEncoder at Compression::fast: the output is
/// a deterministic function of the input bytes (fixed header, zero mtime),
/// and holds at least the 10-byte header and 8-byte trailer.
#[verifier::external_body]
fn gzip_fast(data: &Vec<u8>) -> (r: Vec<u8>)
    ensures
        r@ == gzip_fast_of(data@),
        r@.len() >= 18,
{
    let mut e = flate2::write::GzEncoder::new(Vec::new(), flate2::Compression::fast());
    std::io::Write::write_all(&mut e, data.as_slice()).unwrap();
    e.finish().unwrap()
}

/// The four big-endian bytes of an unsigned 32-bit value.
pub open spec fn be32(v: u32) -> Seq<u8> {
    seq![
        (v / 0x1000000) as u8,
        ((v / 0x10000) % 256) as u8,
        ((v / 256) % 256) as u8,
        (v % 256) as u8,
    ]
}

/// What the streamer compresses: the world volume as a big-endian 32-bit
/// header, then the grid bytes.
pub open spec fn spec_level_payload(t: Terrain) -> Seq<u8> {
    be32((t.size.0 as int * t.size.1 as int * t.size.2 as int) as u32) + t.inner@
}

/// Chunk `j` of the compressed stream `d`: its length, its payload
/// zero-padded to 1024 bytes, and the percentage of `d` emitted through
/// it.
pub open spec fn chunk_rel(d: Seq<u8>, j: int, c: LevelDataChunk) -> bool {
    let start = 1024 * j;
    let end = if start + 1024 <= d.len() {
        start + 1024
    } else {
        d.len() as int
    };
    &&& c.chunk_length == end - start
    &&& c.chunk_data@ == zero_padded1024(d.subrange(start, end))
    &&& c.percent_complete as int == (100 * end) / (d.len() as int)
}

/// The framed bytes of chunk `j` of the compressed stream `d`: the packet
/// id, then the encoded chunk record.
pub open spec fn chunk_frame(d: Seq<u8>, j: int) -> Seq<u8> {
    let start = 1024 * j;
    let end = if start + 1024 <= d.len() {
        start + 1024
    } else {
        d.len() as int
    };
    seq![0x03u8] + crate::codec::be16((end - start) as i16) + zero_padded1024(
        d.subrange(start, end),
    ) + seq![((100 * end) / (d.len() as int)) as u8]
}

/// The framed bytes of the first `j` chunks, in order.
pub open spec fn chunk_frames(d: Seq<u8>, j: int) -> Seq<u8>
    decreases j,
{
    if j <= 0 {
        Seq::empty()
    } else {
        chunk_frames(d, j - 1) + chunk_frame(d, j - 1)
    }
}

/// The one contiguous byte run that brings a newcomer into the world:
/// `LevelInitialize`, every data chunk in order, then `LevelFinalize`
/// carrying the dimensions. Written as a single run so nothing interleaves
/// with the transfer.
pub open spec fn level_run_bytes(t: Terrain) -> Seq<u8> {
    let d = gzip_fast_of(spec_level_payload(t));
    seq![0x02u8] + chunk_frames(d, (d.len() + 1023) as int / 1024) + seq![0x04u8]
        + crate::codec::be16(
        t.size.0,
    ) + crate::codec::be16(t.size.1) + crate::codec::be16(t.size.2)
}

impl Terrain {
    /// The framed level transfer for one newcomer, as one byte run.
    pub fn level_run(&self) -> (r: Vec<u8>)
        requires
            self.wf(),
        ensures
            r@ == level_run_bytes(*self),
    {
        let ghost d = gzip_fast_of(spec_level_payload(*self));
        let chunks = self.to_chunks();
        let mut run: Vec<u8> = Vec::new();
        run.push(0x02);
        let n = chunks.len();
        let mut k: usize = 0;
        while k < n
            invariant
                k <= n,
                n == chunks@.len(),
                n == (d.len() + 1023) / 1024,
                forall|j: int| 0 <= j < n ==> chunk_rel(d, j, #[trigger] chunks@[j]),
                forall|j: int|
                    0 <= j < n ==> crate::server::wf_level_data_chunk(#[trigger] chunks@[j]),
                run@ == seq![0x02u8] + chunk_frames(d, k as int),
            decreases n - k,
        {
            let body = chunks[k].encode();
            proof {
                let c = chunks@[k as int];
                assert(zero_padded1024(c.chunk_data@) =~= c.chunk_data@);
                assert(body@ =~= chunk_frame(d, k as int).skip(1));
            }
            run.push(0x03);
            crate::codec::push_all(&mut run, &body);
            assert(run@ =~= seq![0x02u8] + chunk_frames(d, k + 1));
            k = k + 1;
        }
        let fin = crate::server::LevelFinalize {
            x_size: self.size.0,
            y_size: self.size.1,
            z_size: self.size.2,
        };
        let fin_body = fin.encode();
        run.push(0x04);
        crate::codec::push_all(&mut run, &fin_body);
        assert(run@ =~= level_run_bytes(*self));
        run
    }

    /// Compresses the world and splits the stream into consecutive
    /// 1024-byte chunks, the last possibly shorter, each padded to 1024
    /// bytes and carrying its progress percentage.
    pub fn to_chunks(&self) -> (r: Vec<LevelDataChunk>)
        requires
            self.wf(),
        ensures
            ({
                let d = gzip_fast_of(spec_level_payload(*self));
                &&& r@.len() == (d.len() + 1023) / 1024
                &&& forall|j: int| 0 <= j < r@.len() ==> chunk_rel(d, j, #[trigger] r@[j])
                &&& forall|j: int|
                    0 <= j < r@.len() ==> crate::server::wf_level_data_chunk(#[trigger] r@[j])
            }),
    {
        let a: u64 = self.size.0 as u64;
        let b: u64 = self.size.1 as u64;
        let c: u64 = self.size.2 as u64;
        assert(1 <= a * b <= 0x7fff * 0x7fff) by (nonlinear_arith)
            requires
                1 <= a <= 0x7fff,
                1 <= b <= 0x7fff,
        ;
        let ab: u64 = a * b;
        assert(1 <= ab * c <= 0x7fff * 0x7fff * 0x7fff) by (nonlinear_arith)
            requires
                1 <= ab <= 0x7fff * 0x7fff,
                1 <= c <= 0x7fff,
        ;
        let volume64: u64 = ab * c;
        assert(volume64 == self.size.0 as int * self.size.1 as int * self.size.2 as int);
        let v: u32 = volume64 as u32;
        let mut payload: Vec<u8> = Vec::new();
        payload.push((v / 0x1000000) as u8);
        payload.push(((v / 0x10000) % 256) as u8);
        payload.push(((v / 256) % 256) as u8);
        payload.push((v % 256) as u8);
        let mut i: usize = 0;
        let glen = self.inner.len();
        while i < glen
            invariant
                i <= glen,
                glen == self.inner@.len(),
                payload@ == be32(
                    (self.size.0 as int * self.size.1 as int * self.size.2 as int) as u32,
                ) + self.inner@.take(i as int),
            decreases glen - i,
        {
            payload.push(self.inner[i]);
            assert(payload@ =~= be32(
                (self.size.0 as int * self.size.1 as int * self.size.2 as int) as u32,
            ) + self.inner@.take(i + 1));
            i = i + 1;
        }
        assert(payload@ =~= spec_level_payload(*self));

        let data = gzip_fast(&payload);
        let ghost d = gzip_fast_of(spec_level_payload(*self));
        let n = data.len();
        let mut r: Vec<LevelDataChunk> = Vec::new();
        let mut start: usize = 0;
        while start < n
            invariant
                start <= n,
                n == d.len(),
                n >= 1,
                data@ == d,
                start % 1024 == 0 || start == n,
                r@.len() == (start + 1023) / 1024,
                forall|j: int| 0 <= j < r@.len() ==> chunk_rel(d, j, #[trigger] r@[j]),
                forall|j: int|
                    0 <= j < r@.len() ==> crate::server::wf_level_data_chunk(#[trigger] r@[j]),
            decreases n - start,
        {
            assert(start % 1024 == 0);
            assert(1024 * ((start + 1023) / 1024) == start) by (nonlinear_arith)
                requires
                    start % 1024 == 0,
                    start >= 0,
            ;
            let end: usize = if n - start > 1024 {
                start + 1024
            } else {
                n
            };
            let piece = crate::codec::read_chunk(&data, start, end - start);
            let mut chunk_data: Vec<u8> = Vec::new();
            crate::codec::enc_padded(&mut chunk_data, &piece, 1024, 0x00);
            assert(chunk_data@ =~= zero_padded1024(d.subrange(start as int, end as int)));
            let emitted: u128 = 100u128 * (end as u128);
            let percent: u8 = (emitted / (n as u128)) as u8;
            assert(percent as int == (100 * end as int) / (d.len() as int)) by {
                assert((100 * end as int) / (d.len() as int) <= 100) by (nonlinear_arith)
                    requires
                        1 <= d.len(),
                        end as int <= d.len(),
                ;
                assert((100 * end as int) / (d.len() as int) >= 0) by (nonlinear_arith)
                    requires
                        1 <= d.len(),
                        0 <= end,
                ;
            }
            let chunk = LevelDataChunk {
                chunk_length: (end - start) as i16,
                chunk_data,
                percent_complete: percent,
            };
            r.push(chunk);
            proof {
                let k = r@.len() - 1;
                assert(1024 * k == start);
                assert(chunk_rel(d, k, r@[k]));
                if end < n {
                    assert(end == start + 1024);
                    assert(end % 1024 == 0) by (nonlinear_arith)
                        requires
                            start % 1024 == 0,
                            end == start + 1024,
                            start >= 0,
                    ;
                    assert((end + 1023) / 1024 == k + 1) by (nonlinear_arith)
                        requires
                            1024 * k == end - 1024,
                            end >= 1024,
                    ;
                } else {
                    assert((end + 1023) / 1024 == k + 1) by (nonlinear_arith)
                        requires
                            1024 * k == start,
                            start < end <= start + 1024,
                    ;
                }
            }
            start = end;
        }
        r
    }
}

} // verus!
