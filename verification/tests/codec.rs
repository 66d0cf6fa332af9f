use bd1::Block;
use bd1::ParseError;
use bd1::Reader;
use bd1::TextureTable;
use bd1::Vector3;
use bd1::Writer;
use bd1::UV;

/// One 31-byte filename record, NUL-padded.
fn record(name: &[u8]) -> Vec<u8> {
    assert!(name.len() <= 31);
    let mut r = vec![0u8; 31];
    r[..name.len()].copy_from_slice(name);
    r
}

/// A block whose fields carry recognizable patterns derived from `seed`.
fn sample_block(seed: u32) -> Block {
    let mut b = Block::new();
    for j in 0..8 {
        b.vertex_positions[j] = Vector3 {
            x: seed.wrapping_add(j as u32),
            y: seed.wrapping_add(100 + j as u32),
            z: seed.wrapping_add(200 + j as u32),
        };
    }
    for i in 0..24 {
        b.uvs[i] = UV { u: seed.wrapping_add(300 + i as u32), v: seed.wrapping_add(400 + i as u32) };
    }
    for t in 0..6 {
        b.texture_ids[t] = (t as i32 + seed as i32) % 256;
    }
    b.enabled = seed % 2 == 0;
    b
}

/// The 316 bytes of one block record as the format lays them out.
fn block_record(b: &Block) -> Vec<u8> {
    let mut out = Vec::new();
    for j in 0..8 {
        out.extend_from_slice(&b.vertex_positions[j].x.to_le_bytes());
    }
    for j in 0..8 {
        out.extend_from_slice(&b.vertex_positions[j].y.to_le_bytes());
    }
    for j in 0..8 {
        out.extend_from_slice(&b.vertex_positions[j].z.to_le_bytes());
    }
    for i in 0..24 {
        out.extend_from_slice(&b.uvs[i].u.to_le_bytes());
    }
    for i in 0..24 {
        out.extend_from_slice(&b.uvs[i].v.to_le_bytes());
    }
    for t in 0..6 {
        out.push((b.texture_ids[t] & 0xff) as u8);
        out.extend_from_slice(&[0, 0, 0]);
    }
    out.push(if b.enabled { 1 } else { 0 });
    out.extend_from_slice(&[0, 0, 0]);
    out
}

/// A full buffer with the given filename records, a big-endian count, and
/// the given block records.
fn buffer(names: &[&[u8]], blocks: &[Block]) -> Vec<u8> {
    assert_eq!(names.len(), 10);
    let mut out = Vec::new();
    for n in names {
        out.extend_from_slice(&record(n));
    }
    out.extend_from_slice(&(blocks.len() as u16).to_be_bytes());
    for b in blocks {
        out.extend_from_slice(&block_record(b));
    }
    out
}

fn ten_names() -> Vec<&'static [u8]> {
    vec![
        b"tex0.png" as &[u8],
        b"tex1.png",
        b"tex2.png",
        b"tex3.png",
        b"tex4.png",
        b"tex5.png",
        b"tex6.png",
        b"tex7.png",
        b"tex8.png",
        b"tex9.png",
    ]
}

#[test]
fn round_trip_small_file() {
    let blocks = vec![sample_block(7), sample_block(40)];
    let names = ten_names();
    let bin = buffer(&names, &blocks);

    let reader = Reader::new(&bin).expect("well-formed buffer must parse");
    assert_eq!(reader.blocks.len(), 2);
    assert_eq!(reader.texture_filenames.len(), 10);
    for k in 0..10 {
        assert_eq!(
            reader.texture_filenames.get(k as i32).unwrap().as_slice(),
            names[k]
        );
    }
    assert_eq!(reader.blocks[0].vertex_positions, blocks[0].vertex_positions);
    assert_eq!(reader.blocks[1].uvs, blocks[1].uvs);
    assert_eq!(reader.blocks[0].texture_ids, blocks[0].texture_ids);
    assert_eq!(reader.blocks[0].enabled, blocks[0].enabled);
    assert_eq!(reader.blocks[1].enabled, blocks[1].enabled);

    let out = Writer::write(&reader.blocks, &reader.texture_filenames);
    assert_eq!(out.len(), bin.len());
    // Every byte matches except the block count: read big-endian, written
    // little-endian, so the two count bytes come back swapped.
    assert_eq!(&out[..310], &bin[..310]);
    assert_eq!(out[310], bin[311]);
    assert_eq!(out[311], bin[310]);
    assert_eq!(&out[312..], &bin[312..]);
    // The asymmetry is real: the input said 2 big-endian, the output says
    // 2 little-endian.
    assert_eq!(&bin[310..312], &[0u8, 2u8]);
    assert_eq!(&out[310..312], &[2u8, 0u8]);
}

#[test]
fn filename_truncation() {
    let long_name = [b'a'; 40];
    let mut table = TextureTable::new();
    table.insert(0, long_name.to_vec());
    let out = Writer::write(&Vec::new(), &table);

    let reader = Reader::new(&out).expect("written table-only buffer must parse");
    let back = reader.texture_filenames.get(0).unwrap();
    assert_eq!(back.as_slice(), &long_name[..30]);
}

#[test]
fn nul_scan_boundary() {
    // 30 non-NUL bytes, and a non-NUL byte in the reserved 31st position:
    // the terminator scan covers only the first 30 bytes, so the filename
    // is the full 30 bytes and the 31st is never read as content.
    let mut rec0 = [b'n'; 31];
    rec0[30] = b'X';
    // A NUL exactly at index 29 with a non-NUL reserved byte after it.
    let mut rec1 = [b'm'; 31];
    rec1[29] = 0;
    rec1[30] = b'Y';

    let mut bin = Vec::new();
    bin.extend_from_slice(&rec0);
    bin.extend_from_slice(&rec1);
    for _ in 2..10 {
        bin.extend_from_slice(&record(b""));
    }
    bin.extend_from_slice(&[0, 0]);

    let reader = Reader::new(&bin).expect("buffer must parse");
    assert_eq!(reader.texture_filenames.get(0).unwrap().as_slice(), &[b'n'; 30]);
    assert_eq!(reader.texture_filenames.get(1).unwrap().as_slice(), &[b'm'; 29]);
}

#[test]
fn backslash_normalization() {
    let mut names = ten_names();
    names[0] = b"tex\\wall.png";
    let bin = buffer(&names, &[]);
    let reader = Reader::new(&bin).expect("buffer must parse");
    assert_eq!(
        reader.texture_filenames.get(0).unwrap().as_slice(),
        b"tex/wall.png"
    );
}

#[test]
fn texture_table_overflow() {
    // Twelve distinct keys, inserted out of order: only the ten lowest are
    // emitted, in ascending key order.
    let mut table = TextureTable::new();
    for k in [11, 3, 7, 0, 9, 5, 1, 10, 8, 2, 6, 4] {
        table.insert(k, format!("n{k}").into_bytes());
    }
    assert_eq!(table.len(), 12);
    let out = Writer::write(&Vec::new(), &table);

    let reader = Reader::new(&out).expect("written buffer must parse");
    for k in 0..10 {
        assert_eq!(
            reader.texture_filenames.get(k).unwrap().as_slice(),
            format!("n{k}").as_bytes()
        );
    }
}

#[test]
fn texture_table_underflow() {
    let mut table = TextureTable::new();
    table.insert(0, b"a".to_vec());
    table.insert(1, b"b".to_vec());
    table.insert(2, b"c".to_vec());
    let out = Writer::write(&Vec::new(), &table);

    assert_eq!(out.len(), 312);
    // Slots 3..9 are all-zero 31-byte records.
    for k in 3..10 {
        assert_eq!(&out[31 * k..31 * (k + 1)], &[0u8; 31]);
    }
    let reader = Reader::new(&out).expect("written buffer must parse");
    for k in 3..10 {
        assert_eq!(reader.texture_filenames.get(k).unwrap().len(), 0);
    }
}

#[test]
fn truncated_input_fails() {
    // Shorter than the texture table alone.
    let bin = vec![0u8; 100];
    assert!(matches!(Reader::new(&bin), Err(ParseError::TruncatedInput)));

    // Table complete, count field missing one byte.
    let bin = vec![0u8; 311];
    assert!(matches!(Reader::new(&bin), Err(ParseError::TruncatedInput)));

    // Count declares one block but no block bytes follow.
    let mut bin = vec![0u8; 312];
    bin[311] = 1;
    assert!(matches!(Reader::new(&bin), Err(ParseError::TruncatedInput)));

    // One byte short of the declared block.
    let mut bin = vec![0u8; 312 + 315];
    bin[311] = 1;
    assert!(matches!(Reader::new(&bin), Err(ParseError::TruncatedInput)));

    let empty = Vec::new();
    assert!(matches!(Reader::new(&empty), Err(ParseError::TruncatedInput)));
}

#[test]
fn text_decode_failure() {
    // 0xFF is never valid UTF-8.
    let mut bin = buffer(&ten_names(), &[]);
    bin[5] = 0xFF;
    assert!(matches!(Reader::new(&bin), Err(ParseError::TextDecodeError)));

    // The whole 31-byte record is validated, even bytes after the
    // terminator that never become filename content.
    let mut bin = buffer(&ten_names(), &[]);
    bin[30] = 0xFF;
    assert!(matches!(Reader::new(&bin), Err(ParseError::TextDecodeError)));

    // A bad record beats a later truncation: record 0 is complete and
    // invalid even though the buffer ends inside record 2.
    let mut bin = vec![0u8; 70];
    bin[0] = 0xFF;
    assert!(matches!(Reader::new(&bin), Err(ParseError::TextDecodeError)));
}

#[test]
fn block_size_determinism() {
    for n in [0usize, 1, 2, 5] {
        let blocks: Vec<Block> = (0..n).map(|i| sample_block(i as u32)).collect();
        let mut table = TextureTable::new();
        table.insert(0, b"t.png".to_vec());
        let out = Writer::write(&blocks, &table);
        assert_eq!(out.len(), 312 + 316 * n);
    }
}

#[test]
fn texture_id_widening_and_narrowing() {
    // Reading widens the unsigned byte: 0xFF becomes 255, not -1.
    let mut blk = sample_block(1);
    blk.texture_ids[0] = 255;
    let bin = buffer(&ten_names(), &[blk]);
    let reader = Reader::new(&bin).expect("buffer must parse");
    assert_eq!(reader.blocks[0].texture_ids[0], 255);

    // Writing narrows silently to the low byte: 300 becomes 44.
    let mut blk = sample_block(1);
    blk.texture_ids[0] = 300;
    blk.texture_ids[1] = -1;
    let table = TextureTable::new();
    let out = Writer::write(&vec![blk], &table);
    assert_eq!(out[312 + 288], 44);
    assert_eq!(out[312 + 292], 255);
}

#[test]
fn enabled_flag_nonzero() {
    // Any nonzero first byte of the enabled slot means enabled.
    let blk = sample_block(2);
    let mut bin = buffer(&ten_names(), &[blk]);
    bin[312 + 312] = 7;
    let reader = Reader::new(&bin).expect("buffer must parse");
    assert!(reader.blocks[0].enabled);

    bin[312 + 312] = 0;
    let reader = Reader::new(&bin).expect("buffer must parse");
    assert!(!reader.blocks[0].enabled);

    // The writer emits exactly 1 for enabled, 0 for disabled.
    let mut blk = sample_block(2);
    blk.enabled = true;
    let out = Writer::write(&vec![blk.clone()], &TextureTable::new());
    assert_eq!(out[312 + 312], 1);
    blk.enabled = false;
    let out = Writer::write(&vec![blk], &TextureTable::new());
    assert_eq!(out[312 + 312], 0);
}

#[test]
fn trailing_bytes_ignored() {
    let blocks = vec![sample_block(3)];
    let mut bin = buffer(&ten_names(), &blocks);
    bin.extend_from_slice(&[0xAA, 0xBB, 0xCC]);
    let reader = Reader::new(&bin).expect("buffer with trailing bytes must parse");
    assert_eq!(reader.blocks.len(), 1);
    assert_eq!(reader.blocks[0].vertex_positions, blocks[0].vertex_positions);
}

#[test]
fn table_insert_replaces_duplicate_key() {
    let mut table = TextureTable::new();
    table.insert(4, b"first".to_vec());
    table.insert(4, b"second".to_vec());
    assert_eq!(table.len(), 1);
    assert_eq!(table.get(4).unwrap().as_slice(), b"second");
    assert!(table.get(3).is_none());
}

#[test]
fn block_new_is_zeroed_and_enabled() {
    let b = Block::new();
    assert_eq!(b.vertex_positions.len(), 8);
    assert_eq!(b.uvs.len(), 24);
    assert_eq!(b.texture_ids.len(), 6);
    assert!(b.enabled);
    assert!(b.vertex_positions.iter().all(|v| v.x == 0 && v.y == 0 && v.z == 0));
    assert!(b.uvs.iter().all(|t| t.u == 0 && t.v == 0));
    assert!(b.texture_ids.iter().all(|id| *id == 0));
}

#[test]
fn palindromic_count_round_trips_exactly() {
    // 257 is 0x0101: its big-endian and little-endian encodings coincide,
    // so for this count the reader/writer byte-order asymmetry is
    // invisible and an all-zero file round-trips byte for byte.
    let mut bin = vec![0u8; 310];
    bin.extend_from_slice(&[1, 1]);
    bin.extend_from_slice(&vec![0u8; 257 * 316]);

    let reader = Reader::new(&bin).expect("buffer must parse");
    assert_eq!(reader.blocks.len(), 257);
    assert!(!reader.blocks[0].enabled);

    let out = Writer::write(&reader.blocks, &reader.texture_filenames);
    assert_eq!(out, bin);
}
