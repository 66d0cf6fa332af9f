//! Parser for BD1 buffers.

use vstd::prelude::*;

use crate::block::Block;
use crate::block::Vector3;
use crate::error::ParseError;
use crate::layout::block_base;
use crate::layout::block_matches;
use crate::layout::filename_bytes;
use crate::layout::has_bad_record;
use crate::layout::parse_ok;
use crate::layout::record_seq;
use crate::layout::spec_count;
use crate::layout::word_at;
use crate::table::TextureTable;
use crate::table::lemma_insert_position_unique;
use crate::uv::UV;

verus! {

/// Relies on core::str::from_utf8: it returns `Ok` exactly when the bytes
/// are valid UTF-8.
#[verifier::external_body]
fn utf8_is_valid(bytes: &Vec<u8>) -> (r: bool)
    ensures
        r == vstd::utf8::valid_utf8(bytes@),
{
    core::str::from_utf8(bytes.as_slice()).is_ok()
}

/// Whether a table holds exactly the ten filenames a buffer's records
/// decode to, under keys 0–9 in record order.
pub open spec fn table_matches(t: TextureTable, bytes: Seq<u8>) -> bool {
    &&& t.wf()
    &&& t.entries@.len() == 10
    &&& forall|k: int| 0 <= k < 10 ==> t.entries@[k].0 == k
    &&& forall|k: int|
        0 <= k < 10 ==> t.entries@[k].1@ == filename_bytes(record_seq(bytes, k))
}

/// Whether a block list holds exactly the blocks a buffer declares, one
/// per 316-byte record in record order.
pub open spec fn blocks_match(blocks: Seq<Block>, bytes: Seq<u8>) -> bool {
    &&& blocks.len() == spec_count(bytes)
    &&& forall|b: int| 0 <= b < blocks.len() ==> block_matches(blocks[b], bytes, block_base(b))
}

/// Whether a reader holds exactly what a buffer describes: the ten decoded
/// filenames under keys 0–9 in record order, and one block per declared
/// block record.
pub open spec fn reader_matches(r: Reader, bytes: Seq<u8>) -> bool {
    &&& table_matches(r.texture_filenames, bytes)
    &&& blocks_match(r.blocks@, bytes)
}

/// Parse result: the texture filename table and the block list of a buffer.
pub struct Reader {
    pub texture_filenames: TextureTable,
    pub blocks: Vec<Block>,
}

impl Reader {
    /// Parses a BD1 buffer.
    ///
    /// Fails with `TextDecodeError` when a complete filename record is not
    /// valid UTF-8, with `TruncatedInput` when the buffer ends before a
    /// field of the fixed layout, and succeeds otherwise, returning exactly
    /// the table and blocks the bytes describe.  Bytes after the last
    /// declared block are ignored.  No partial result accompanies an error.
    pub fn new(bin: &Vec<u8>) -> (r: Result<Reader, ParseError>)
        ensures
            r is Ok <==> parse_ok(bin@),
            (r == Err::<Reader, ParseError>(ParseError::TextDecodeError)) <==> has_bad_record(
                bin@,
            ),
            (r == Err::<Reader, ParseError>(ParseError::TruncatedInput)) <==> (!has_bad_record(
                bin@,
            ) && (bin@.len() < 312 || bin@.len() < 312 + 316 * spec_count(bin@))),
            r matches Ok(reader) ==> reader_matches(reader, bin@),
    {
        let n = bin.len();
        let mut table = TextureTable::new();

        let mut k: usize = 0;
        while k < 10
            invariant
                n == bin@.len(),
                0 <= k <= 10,
                31 * k <= n,
                table.wf(),
                table.entries@.len() == k,
                forall|kk: int| 0 <= kk < k ==> table.entries@[kk].0 == kk,
                forall|kk: int|
                    0 <= kk < k ==> table.entries@[kk].1@ == filename_bytes(
                        record_seq(bin@, kk),
                    ),
                forall|kk: int|
                    0 <= kk < k ==> vstd::utf8::valid_utf8(record_seq(bin@, kk)),
            decreases 10 - k,
        {
            if n < 31 * (k + 1) {
                // Record k is incomplete, so every later record is too: the
                // failure is truncation, and no complete record was invalid.
                return Err(ParseError::TruncatedInput);
            }

            let mut rec: Vec<u8> = Vec::new();
            let mut j: usize = 0;
            while j < 31
                invariant
                    n == bin@.len(),
                    31 * k + 31 <= n,
                    k < 10,
                    0 <= j <= 31,
                    rec@.len() == j,
                    forall|jj: int| 0 <= jj < j ==> rec@[jj] == bin@[31 * k + jj],
                decreases 31 - j,
            {
                rec.push(bin[31 * k + j]);
                j = j + 1;
            }
            proof {
                assert(rec@ =~= record_seq(bin@, k as int));
            }

            if !utf8_is_valid(&rec) {
                return Err(ParseError::TextDecodeError);
            }

            // Find the first NUL among the first 30 bytes; byte 30 is
            // reserved and never inspected by the terminator scan.  The
            // scan runs backwards so that each step matches one unfolding
            // of the specification.
            let mut nul: usize = 30;
            let mut j2: usize = 30;
            while j2 > 0
                invariant
                    rec@.len() == 31,
                    0 <= j2 <= 30,
                    nul <= 30,
                    nul == crate::layout::first_nul_from(rec@, j2 as int),
                decreases j2,
            {
                j2 = j2 - 1;
                if rec[j2] == 0 {
                    nul = j2;
                }
            }

            let mut name: Vec<u8> = Vec::new();
            let mut j3: usize = 0;
            while j3 < nul
                invariant
                    rec@.len() == 31,
                    nul <= 30,
                    0 <= j3 <= nul,
                    name@.len() == j3,
                    forall|jj: int|
                        0 <= jj < j3 ==> name@[jj] == crate::layout::norm_byte(rec@[jj]),
                decreases nul - j3,
            {
                let b = rec[j3];
                name.push(if b == 0x5c {
                    0x2f
                } else {
                    b
                });
                j3 = j3 + 1;
            }
            proof {
                assert(name@ =~= filename_bytes(record_seq(bin@, k as int)));
            }

            proof {
                lemma_insert_position_unique(table.entries@, k as i32, k as int);
            }
            let ghost pre = table.entries@;
            table.insert(k as i32, name);
            proof {
                assert(table.entries@ == pre.insert(k as int, (k as i32, name)));
            }
            k = k + 1;
        }

        if n < 312 {
            return Err(ParseError::TruncatedInput);
        }

        let count: u16 = (bin[310] as u16) * 0x100 + (bin[311] as u16);
        let needed: usize = 312 + 316 * (count as usize);
        if n < needed {
            return Err(ParseError::TruncatedInput);
        }

        let mut blocks: Vec<Block> = Vec::new();
        let mut b: usize = 0;
        while b < count as usize
            invariant
                n == bin@.len(),
                count == spec_count(bin@),
                n >= 312 + 316 * (count as int),
                0 <= b <= count,
                blocks@.len() == b,
                forall|bb: int|
                    0 <= bb < b ==> block_matches(blocks@[bb], bin@, block_base(bb)),
            decreases count as int - b,
        {
            let blk = parse_block(bin, 312 + 316 * b);
            blocks.push(blk);
            b = b + 1;
        }

        Ok(Reader { texture_filenames: table, blocks })
    }
}

/// Reads the 316-byte block record at offset `base`.
fn parse_block(bin: &Vec<u8>, base: usize) -> (blk: Block)
    requires
        base + 316 <= bin@.len(),
        bin@.len() <= usize::MAX,
    ensures
        block_matches(blk, bin@, base as int),
{
    let mut vertex_positions: Vec<Vector3> = Vec::new();
    let mut j: usize = 0;
    while j < 8
        invariant
            base + 316 <= bin@.len(),
            bin@.len() <= usize::MAX,
            0 <= j <= 8,
            vertex_positions@.len() == j,
            forall|jj: int|
                0 <= jj < j ==> vertex_positions@[jj].x == word_at(bin@, base + 4 * jj),
            forall|jj: int|
                0 <= jj < j ==> vertex_positions@[jj].y == word_at(bin@, base + 32 + 4 * jj),
            forall|jj: int|
                0 <= jj < j ==> vertex_positions@[jj].z == word_at(bin@, base + 64 + 4 * jj),
        decreases 8 - j,
    {
        let x = read_word(bin, base + 4 * j);
        let y = read_word(bin, base + 32 + 4 * j);
        let z = read_word(bin, base + 64 + 4 * j);
        vertex_positions.push(Vector3 { x, y, z });
        j = j + 1;
    }

    let mut uvs: Vec<UV> = Vec::new();
    let mut i: usize = 0;
    while i < 24
        invariant
            base + 316 <= bin@.len(),
            bin@.len() <= usize::MAX,
            0 <= i <= 24,
            uvs@.len() == i,
            forall|ii: int| 0 <= ii < i ==> uvs@[ii].u == word_at(bin@, base + 96 + 4 * ii),
            forall|ii: int| 0 <= ii < i ==> uvs@[ii].v == word_at(bin@, base + 192 + 4 * ii),
        decreases 24 - i,
    {
        let u = read_word(bin, base + 96 + 4 * i);
        let v = read_word(bin, base + 192 + 4 * i);
        uvs.push(UV { u, v });
        i = i + 1;
    }

    // Each texture id slot is 4 bytes; only the first byte carries the id,
    // widened from unsigned 8-bit to signed 32-bit.
    let mut texture_ids: Vec<i32> = Vec::new();
    let mut t: usize = 0;
    while t < 6
        invariant
            base + 316 <= bin@.len(),
            bin@.len() <= usize::MAX,
            0 <= t <= 6,
            texture_ids@.len() == t,
            forall|tt: int|
                0 <= tt < t ==> texture_ids@[tt] == bin@[base + 288 + 4 * tt] as i32,
        decreases 6 - t,
    {
        texture_ids.push(bin[base + 288 + 4 * t] as i32);
        t = t + 1;
    }

    // Only the first byte of the enabled slot is interpreted: zero is
    // disabled, any nonzero value is enabled.
    let enabled = bin[base + 312] != 0;

    Block { vertex_positions, uvs, texture_ids, enabled }
}

/// Reads the little-endian 32-bit word at offset `off`.
fn read_word(bin: &Vec<u8>, off: usize) -> (w: u32)
    requires
        off + 4 <= bin@.len(),
        bin@.len() <= usize::MAX,
    ensures
        w == word_at(bin@, off as int),
{
    (bin[off] as u32) + 0x100 * (bin[off + 1] as u32) + 0x1_0000 * (bin[off + 2] as u32)
        + 0x100_0000 * (bin[off + 3] as u32)
}

} // verus!
