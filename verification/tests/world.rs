//! World storage bounds and the level streamer.

use classicl_server::terrain::{index, Terrain};
use std::io::Read;

fn stone_world(x: i16, y: i16, z: i16) -> Terrain {
    let n = (x as usize) * (y as usize) * (z as usize);
    Terrain::from_parts((x, y, z), (320, 358, 320), vec![1u8; n]).unwrap()
}

#[test]
fn set_block_writes_exactly_one_byte() {
    let mut w = stone_world(4, 4, 4);
    w.set_block(1, 2, 3, 0x12);
    let idx = 1 + 4 * (3 + 4 * 2);
    for i in 0..64 {
        let expect = if i == idx { 0x12 } else { 1 };
        assert_eq!(w.inner[i], expect);
    }
    assert_eq!(w.get_block(1, 2, 3), Some(0x12));
}

#[test]
fn set_block_out_of_bounds_is_a_no_op() {
    let mut w = stone_world(4, 4, 4);
    let before = w.inner.clone();
    w.set_block(-1, 0, 0, 9);
    w.set_block(4, 0, 0, 9);
    w.set_block(0, 4, 0, 9);
    w.set_block(0, 0, 4, 9);
    w.set_block(0, -1, 0, 9);
    assert_eq!(w.inner, before);
    assert_eq!(w.get_block(4, 0, 0), None);
    assert_eq!(w.get_block(0, 0, -1), None);
}

#[test]
fn index_formula() {
    assert_eq!(index(4, 4, 1, 2, 3), Some(1 + 4 * (3 + 4 * 2)));
    assert_eq!(index(4, 4, -1, 0, 0), None);
    assert_eq!(index(4, 4, 4, 0, 0), None);
    assert_eq!(index(4, 4, 0, -1, 0), None);
    assert_eq!(index(4, 4, 0, 0, 4), None);
    // The vertical coordinate is only bounded below; the grid length caps it.
    assert_eq!(index(4, 4, 0, 100, 0), Some(4 * 4 * 100));
}

#[test]
fn from_parts_rejects_bad_shapes() {
    assert!(Terrain::from_parts((0, 1, 1), (0, 0, 0), vec![]).is_none());
    assert!(Terrain::from_parts((2, 2, 2), (0, 0, 0), vec![0; 7]).is_none());
    assert!(Terrain::from_parts((2, 2, 2), (0, 0, 0), vec![0; 8]).is_some());
}

#[test]
fn chunks_carry_the_gzip_stream() {
    let w = stone_world(4, 4, 4);
    let chunks = w.to_chunks();
    assert!(!chunks.is_empty());
    let mut compressed = Vec::new();
    for c in &chunks {
        assert_eq!(c.chunk_data.len(), 1024);
        assert!(c.chunk_length >= 1 && c.chunk_length <= 1024);
        compressed.extend_from_slice(&c.chunk_data[..c.chunk_length as usize]);
    }
    assert_eq!(chunks.last().unwrap().percent_complete, 100);
    let mut decoder = flate2::read::GzDecoder::new(&compressed[..]);
    let mut plain = Vec::new();
    decoder.read_to_end(&mut plain).unwrap();
    let mut expected = vec![0u8, 0, 0, 64];
    expected.extend_from_slice(&vec![1u8; 64]);
    assert_eq!(plain, expected);
}

#[test]
fn a_large_world_streams_in_several_chunks() {
    // Incompressible-ish bytes force more than one chunk.
    let n = 32 * 16 * 16;
    let mut state: u64 = 12345;
    let grid: Vec<u8> = (0..n)
        .map(|_| {
            state = (1103515245u64.wrapping_mul(state).wrapping_add(12345)) % (1 << 31);
            (state >> 16) as u8
        })
        .collect();
    let w = Terrain::from_parts((32, 16, 16), (0, 0, 0), grid.clone()).unwrap();
    let chunks = w.to_chunks();
    assert!(chunks.len() > 1);
    let mut compressed = Vec::new();
    for (i, c) in chunks.iter().enumerate() {
        if i + 1 < chunks.len() {
            assert_eq!(c.chunk_length, 1024);
        }
        compressed.extend_from_slice(&c.chunk_data[..c.chunk_length as usize]);
        let expected_percent = (100 * compressed.len()) / (1024 * (chunks.len() - 1)
            + chunks.last().unwrap().chunk_length as usize);
        assert_eq!(c.percent_complete as usize, expected_percent);
    }
    assert_eq!(chunks.last().unwrap().percent_complete, 100);
    let mut decoder = flate2::read::GzDecoder::new(&compressed[..]);
    let mut plain = Vec::new();
    decoder.read_to_end(&mut plain).unwrap();
    assert_eq!(&plain[..4], &[0, 0, 32, 0]);
    assert_eq!(&plain[4..], &grid[..]);
}

#[test]
fn level_run_frames_the_transfer() {
    let w = stone_world(4, 4, 4);
    let run = w.level_run();
    assert_eq!(run[0], 0x02);
    let tail = &run[run.len() - 7..];
    assert_eq!(tail, &[0x04, 0, 4, 0, 4, 0, 4]);
    // Between them: one 0x03-framed chunk per 1024 compressed bytes.
    assert_eq!(run[1], 0x03);
    let n_chunks = (run.len() - 1 - 7) / 1028;
    assert_eq!((run.len() - 1 - 7) % 1028, 0);
    assert_eq!(n_chunks, w.to_chunks().len());
}
