//! Splitting a sub-buffer into typed blocks.
//!
//! A block starts with a tag byte: its low three bits give the block type,
//! the other five the block id. Type 0 is followed by a variable-length
//! integer, type 2 by a variable-length byte count and that many bytes.

use crate::buffer::{bytes_copy_from_slice, bytes_from_vec, bytes_seq};
use crate::error::FormatError;
use crate::varint::{lemma_varint_roundtrip, parse_var_int, spec_encode_varint, spec_read_varint};
use bytes::Bytes;
use vstd::pervasive::unreached;
use vstd::prelude::*;
use vstd::slice::slice_subrange;

verus! {

/// Type tag of a block that holds a variable-length integer.
pub const TAG_VARINT: u8 = 0;

/// Type tag of a block that holds a length-delimited byte span.
pub const TAG_SPAN: u8 = 2;

/// One tagged field of a sub-buffer.
#[derive(Debug)]
pub struct Block {
    /// The upper five bits of the tag byte.
    pub id: u8,
    /// The block type, [`TAG_VARINT`] or [`TAG_SPAN`].
    pub tag: u8,
    /// The span's bytes, or the integer in eight big-endian bytes.
    pub data: Bytes,
}

/// Mathematical model of a [`Block`].
pub struct BlockView {
    pub id: u8,
    pub tag: u8,
    pub data: Seq<u8>,
}

impl View for Block {
    type V = BlockView;

    open spec fn view(&self) -> BlockView {
        BlockView { id: self.id, tag: self.tag, data: bytes_seq(self.data) }
    }
}

/// The models of a run of blocks.
pub open spec fn block_views(blocks: Seq<Block>) -> Seq<BlockView> {
    blocks.map_values(|b: Block| b@)
}

/// The eight bytes of `value`, most significant first.
#[verifier::opaque]
pub open spec fn spec_be_bytes(value: u64) -> Seq<u8> {
    seq![
        (value / 0x100_0000_0000_0000) as u8,
        (value / 0x1_0000_0000_0000 % 256) as u8,
        (value / 0x100_0000_0000 % 256) as u8,
        (value / 0x1_0000_0000 % 256) as u8,
        (value / 0x100_0000 % 256) as u8,
        (value / 0x1_0000 % 256) as u8,
        (value / 0x100 % 256) as u8,
        (value % 256) as u8,
    ]
}

/// The number that eight big-endian bytes stand for.
pub open spec fn spec_be_value(bytes: Seq<u8>) -> nat {
    (bytes[0] * 0x100_0000_0000_0000 + bytes[1] * 0x1_0000_0000_0000 + bytes[2] * 0x100_0000_0000
        + bytes[3] * 0x1_0000_0000 + bytes[4] * 0x100_0000 + bytes[5] * 0x1_0000 + bytes[6] * 0x100
        + bytes[7]) as nat
}

/// The big-endian bytes of a value stand for that value.
pub proof fn lemma_be_bytes_value(value: u64)
    ensures
        spec_be_bytes(value).len() == 8,
        spec_be_value(spec_be_bytes(value)) == value,
{
    reveal(spec_be_bytes);
    assert((value / 0x100_0000_0000_0000) * 0x100_0000_0000_0000 + (value / 0x1_0000_0000_0000
        % 256) * 0x1_0000_0000_0000 + (value / 0x100_0000_0000 % 256) * 0x100_0000_0000 + (value
        / 0x1_0000_0000 % 256) * 0x1_0000_0000 + (value / 0x100_0000 % 256) * 0x100_0000 + (value
        / 0x1_0000 % 256) * 0x1_0000 + (value / 0x100 % 256) * 0x100 + value % 256 == value
        && value / 0x100_0000_0000_0000 < 256) by (bit_vector);
}

/// The eight bytes of `value`, most significant first.
pub fn be_bytes(value: u64) -> (out: Vec<u8>)
    ensures
        out@ == spec_be_bytes(value),
{
    let mut out: Vec<u8> = Vec::with_capacity(8);
    out.push((value / 0x100_0000_0000_0000) as u8);
    out.push((value / 0x1_0000_0000_0000 % 256) as u8);
    out.push((value / 0x100_0000_0000 % 256) as u8);
    out.push((value / 0x1_0000_0000 % 256) as u8);
    out.push((value / 0x100_0000 % 256) as u8);
    out.push((value / 0x1_0000 % 256) as u8);
    out.push((value / 0x100 % 256) as u8);
    out.push((value % 256) as u8);
    proof {
        reveal(spec_be_bytes);
    }
    assert(out@ =~= spec_be_bytes(value));
    out
}

/// The block at the front of a non-empty `s`, with the number of bytes it
/// occupies.
pub open spec fn spec_first_block(s: Seq<u8>) -> Result<(BlockView, nat), FormatError>
    recommends
        s.len() > 0,
{
    let tag = s[0] % 8;
    let id = s[0] / 8;
    if tag == TAG_VARINT {
        match spec_read_varint(s.skip(1)) {
            Ok((value, n)) => Ok((BlockView { id, tag, data: spec_be_bytes(value) }, 1 + n)),
            Err(e) => Err(e),
        }
    } else if tag == TAG_SPAN {
        match spec_read_varint(s.skip(1)) {
            Ok((count, n)) => if 1 + n + count > s.len() {
                Err(FormatError::TruncatedBlock)
            } else {
                Ok(
                    (
                        BlockView { id, tag, data: s.subrange(1 + n as int, 1 + n + count) },
                        1 + n + count as nat,
                    ),
                )
            },
            Err(e) => Err(e),
        }
    } else {
        Err(FormatError::InvalidBlockType(tag))
    }
}

/// `done` followed by the blocks of the outcome `rest`; a failure in `rest`
/// is the failure of the whole.
pub open spec fn blocks_then(done: Seq<BlockView>, rest: Result<Seq<BlockView>, FormatError>)
    -> Result<Seq<BlockView>, FormatError> {
    match rest {
        Ok(more) => Ok(done + more),
        Err(e) => Err(e),
    }
}

/// All blocks of `s`, in the order met. The blocks have to fill `s` to its
/// last byte; the first malformed block makes the whole fail.
pub open spec fn spec_blocks(s: Seq<u8>) -> Result<Seq<BlockView>, FormatError>
    decreases s.len(),
{
    if s.len() == 0 {
        Ok(Seq::empty())
    } else {
        match spec_first_block(s) {
            Ok((block, n)) => blocks_then(seq![block], spec_blocks(s.skip(n as int))),
            Err(e) => Err(e),
        }
    }
}

/// The method-name span and the payload span of a sub-buffer, which must
/// consist of exactly two blocks.
pub open spec fn spec_method_data(s: Seq<u8>) -> Result<(Seq<u8>, Seq<u8>), FormatError> {
    match spec_blocks(s) {
        Ok(blocks) => if blocks.len() == 2 {
            Ok((blocks[0].data, blocks[1].data))
        } else {
            Err(FormatError::InvalidBlockCount(blocks.len() as usize))
        },
        Err(e) => Err(e),
    }
}

/// Reads the block that starts at `pos`, and says where the next one
/// starts.
fn read_block(buf: &[u8], pos: usize) -> (r: Result<(Block, usize), FormatError>)
    requires
        pos < buf.len(),
    ensures
        match spec_first_block(buf@.skip(pos as int)) {
            Ok((block, n)) => r matches Ok((found, next)) && found@ == block && next == pos + n
                && pos < next <= buf.len(),
            Err(e) => r matches Err(x) && x == e,
        },
{
    let ghost s = buf@.skip(pos as int);
    let head: u8 = buf[pos];
    let tag: u8 = head & 0x07;
    let id: u8 = head >> 3;
    assert(tag == head % 8 && id == head / 8) by (bit_vector)
        requires
            tag == head & 0x07,
            id == head >> 3,
    ;
    assert(s[0] == head);
    assert(s.skip(1) =~= buf@.skip(pos + 1));
    let mut next: usize = pos + 1;
    if tag == TAG_VARINT {
        match parse_var_int(buf, &mut next) {
            Ok(value) => Ok((Block { id, tag, data: bytes_from_vec(be_bytes(value)) }, next)),
            Err(e) => Err(e),
        }
    } else if tag == TAG_SPAN {
        match parse_var_int(buf, &mut next) {
            Ok(count) => {
                let room: usize = buf.len() - next;
                if count > room as u64 {
                    return Err(FormatError::TruncatedBlock);
                }
                let end: usize = next + count as usize;
                let data: Bytes = bytes_copy_from_slice(slice_subrange(buf, next, end));
                assert(buf@.subrange(next as int, end as int) =~= s.subrange(
                    next - pos,
                    end - pos,
                ));
                Ok((Block { id, tag, data }, end))
            },
            Err(e) => Err(e),
        }
    } else {
        Err(FormatError::InvalidBlockType(tag))
    }
}

/// Splits `buf` into its blocks.
pub fn split_blocks(buf: &[u8]) -> (r: Result<Vec<Block>, FormatError>)
    ensures
        match spec_blocks(buf@) {
            Ok(blocks) => r matches Ok(v) && block_views(v@) == blocks,
            Err(e) => r matches Err(x) && x == e,
        },
{
    let mut blocks: Vec<Block> = Vec::new();
    let mut i: usize = 0;
    assert(buf@.skip(0) =~= buf@);
    assert(block_views(blocks@) + Seq::<BlockView>::empty() =~= block_views(blocks@));
    while i < buf.len()
        invariant
            i <= buf.len(),
            spec_blocks(buf@) == blocks_then(
                block_views(blocks@),
                spec_blocks(buf@.skip(i as int)),
            ),
        decreases buf.len() - i,
    {
        let ghost done = block_views(blocks@);
        let (block, next) = match read_block(buf, i) {
            Ok(found) => found,
            Err(e) => {
                return Err(e);
            },
        };
        assert(buf@.skip(i as int).skip(next - i) =~= buf@.skip(next as int));
        blocks.push(block);
        proof {
            assert(block_views(blocks@) =~= done.push(block@));
            if let Ok(more) = spec_blocks(buf@.skip(next as int)) {
                assert(done + (seq![block@] + more) =~= done.push(block@) + more);
            }
        }
        i = next;
    }
    Ok(blocks)
}

/// Splits `buf` into the method-name span and the payload span.
///
/// The sub-buffer has to consist of exactly two blocks; any other count is
/// reported with the count found.
pub fn buf_to_method_data(buf: &[u8]) -> (r: Result<(Bytes, Bytes), FormatError>)
    ensures
        match spec_method_data(buf@) {
            Ok((name, payload)) => r matches Ok(pair) && bytes_seq(pair.0) == name && bytes_seq(
                pair.1,
            ) == payload,
            Err(e) => r matches Err(x) && x == e,
        },
{
    let mut blocks: Vec<Block> = match split_blocks(buf) {
        Ok(blocks) => blocks,
        Err(e) => {
            return Err(e);
        },
    };
    let ghost all = blocks@;
    let count: usize = blocks.len();
    if count != 2 {
        return Err(FormatError::InvalidBlockCount(count));
    }
    let payload: Block = match blocks.pop() {
        Some(block) => block,
        None => unreached(),
    };
    let method: Block = match blocks.pop() {
        Some(block) => block,
        None => unreached(),
    };
    assert(payload@ == block_views(all)[1]);
    assert(method@ == block_views(all)[0]);
    Ok((method.data, payload.data))
}

/// What a block carries, before it is laid out as bytes.
pub enum BlockContent {
    /// An integer, written as a variable-length integer.
    Varint(u64),
    /// A byte span, written behind its length.
    Span(Seq<u8>),
}

impl BlockContent {
    /// The type tag under which this content is written.
    pub open spec fn tag(self) -> u8 {
        match self {
            BlockContent::Varint(_) => TAG_VARINT,
            BlockContent::Span(_) => TAG_SPAN,
        }
    }

    /// The data that the splitter reports for this content.
    pub open spec fn data(self) -> Seq<u8> {
        match self {
            BlockContent::Varint(value) => spec_be_bytes(value),
            BlockContent::Span(bytes) => bytes,
        }
    }

    /// Whether the content can be written: an id of five bits, and a span
    /// whose length fits the 64-bit count in front of it.
    pub open spec fn encodable(self, id: u8) -> bool {
        &&& id < 32
        &&& self matches BlockContent::Span(bytes) ==> bytes.len() <= u64::MAX
    }

    /// The block the splitter reports for this content under `id`.
    pub open spec fn block(self, id: u8) -> BlockView {
        BlockView { id, tag: self.tag(), data: self.data() }
    }
}

/// The bytes of one block: the tag byte, and behind it the integer, or the
/// span's length and the span.
pub open spec fn spec_encode_block(id: u8, content: BlockContent) -> Seq<u8> {
    match content {
        BlockContent::Varint(value) => seq![(id * 8 + TAG_VARINT) as u8] + spec_encode_varint(
            value as nat,
        ),
        BlockContent::Span(bytes) => seq![(id * 8 + TAG_SPAN) as u8] + spec_encode_varint(
            bytes.len(),
        ) + bytes,
    }
}

/// The bytes of a run of blocks, one behind the other.
pub open spec fn spec_encode_blocks(items: Seq<(u8, BlockContent)>) -> Seq<u8>
    decreases items.len(),
{
    if items.len() == 0 {
        Seq::empty()
    } else {
        spec_encode_block(items[0].0, items[0].1) + spec_encode_blocks(items.skip(1))
    }
}

/// Reading back one written block: whatever follows it, the splitter finds
/// the id, the tag and the data that went in, and stops where the block ends.
pub proof fn lemma_first_block_roundtrip(id: u8, content: BlockContent, rest: Seq<u8>)
    requires
        content.encodable(id),
    ensures
        spec_first_block(spec_encode_block(id, content) + rest) == Ok::<
            (BlockView, nat),
            FormatError,
        >((content.block(id), spec_encode_block(id, content).len())),
{
    let s = spec_encode_block(id, content) + rest;
    match content {
        BlockContent::Varint(value) => {
            let number = spec_encode_varint(value as nat);
            lemma_varint_roundtrip(value, rest);
            assert(s.skip(1) =~= number + rest);
        },
        BlockContent::Span(bytes) => {
            let count = spec_encode_varint(bytes.len());
            lemma_varint_roundtrip(bytes.len() as u64, bytes + rest);
            assert(s.skip(1) =~= count + (bytes + rest));
            let from = 1 + count.len() as int;
            assert(s.subrange(from, from + bytes.len()) =~= bytes);
        },
    }
}

/// Splitting undoes writing: a buffer made of written blocks splits into
/// exactly those blocks, in the order written.
pub proof fn lemma_blocks_roundtrip(items: Seq<(u8, BlockContent)>)
    requires
        forall|i: int| 0 <= i < items.len() ==> (#[trigger] items[i]).1.encodable(items[i].0),
    ensures
        spec_blocks(spec_encode_blocks(items)) == Ok::<Seq<BlockView>, FormatError>(
            items.map_values(|item: (u8, BlockContent)| item.1.block(item.0)),
        ),
    decreases items.len(),
{
    let blocks = items.map_values(|item: (u8, BlockContent)| item.1.block(item.0));
    if items.len() == 0 {
        assert(blocks =~= Seq::empty());
    } else {
        let first = spec_encode_block(items[0].0, items[0].1);
        let tail = items.skip(1);
        let rest = spec_encode_blocks(tail);
        let s = spec_encode_blocks(items);
        assert(items[0].1.encodable(items[0].0));
        assert forall|i: int| 0 <= i < tail.len() implies (#[trigger] tail[i]).1.encodable(
            tail[i].0,
        ) by {
            assert(tail[i] == items[i + 1]);
        }
        lemma_first_block_roundtrip(items[0].0, items[0].1, rest);
        lemma_blocks_roundtrip(tail);
        assert(s.skip(first.len() as int) =~= rest);
        assert(blocks =~= seq![items[0].1.block(items[0].0)] + tail.map_values(
            |item: (u8, BlockContent)| item.1.block(item.0),
        ));
    }
}

/// A method name and a payload written as two spans come back as they went
/// in, whatever ids the two blocks carry.
pub proof fn lemma_method_data_roundtrip(
    name_id: u8,
    name: Seq<u8>,
    payload_id: u8,
    payload: Seq<u8>,
)
    requires
        name_id < 32,
        payload_id < 32,
        name.len() <= u64::MAX,
        payload.len() <= u64::MAX,
    ensures
        spec_method_data(
            spec_encode_block(name_id, BlockContent::Span(name)) + spec_encode_block(
                payload_id,
                BlockContent::Span(payload),
            ),
        ) == Ok::<(Seq<u8>, Seq<u8>), FormatError>((name, payload)),
{
    let items = seq![
        (name_id, BlockContent::Span(name)),
        (payload_id, BlockContent::Span(payload)),
    ];
    lemma_blocks_roundtrip(items);
    assert(items.skip(1).skip(1) =~= Seq::empty());
    assert(spec_encode_blocks(items.skip(1).skip(1)) =~= Seq::empty());
    assert(spec_encode_blocks(items) =~= spec_encode_block(name_id, BlockContent::Span(name))
        + spec_encode_block(payload_id, BlockContent::Span(payload))) by {
        reveal_with_fuel(spec_encode_blocks, 3);
    }
}

} // verus!
