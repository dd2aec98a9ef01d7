//! The codec for stored payloads: a byte-oriented run-length format.
//!
//! A stream is a tag byte, the length of the content as four little-endian
//! bytes, and a sequence of blocks. A block starts with a control byte. A
//! control byte below 128 is followed by that many bytes plus one, which
//! stand for themselves. A control byte of 128 or more is followed by one
//! byte, which stands for itself repeated `control - 125` times.

use vstd::prelude::*;
use vstd::string::StringExecFns;
use crate::errors::Error;

verus! {

/// The first byte of every stream in this format. No UTF-8 text starts
/// with this byte, so text that was stored as it is cannot be taken for a
/// stream.
pub const FORMAT_TAG: u8 = 0xc1;

/// The number of bytes before the first block.
pub const HEADER_LEN: usize = 5;

/// The most bytes that one literal block holds.
pub const MAX_LITERAL: usize = 128;

/// The fewest repetitions that are written as a run block.
pub const MIN_RUN: usize = 3;

/// The most repetitions that one run block holds.
pub const MAX_RUN: usize = 130;

/// The largest content that the length field can describe.
pub const MAX_CONTENT_LEN: usize = 0xffff_ffff;

/// Why a stream cannot be decoded.
#[derive(Debug, Clone, Copy, PartialEq, Eq, Structural)]
pub enum CodecFault {
    /// The stream ends before the content is complete.
    Truncated,
    /// The stream does not start with the tag of this format.
    UnsupportedFormat,
    /// The blocks hold more content than the header announces.
    Corrupt,
}

impl CodecFault {
    /// The description that a `Compression` failure carries for the fault.
    pub open spec fn text(self) -> Seq<char> {
        match self {
            CodecFault::Truncated => "truncated input"@,
            CodecFault::UnsupportedFormat => "unsupported format"@,
            CodecFault::Corrupt => "corrupt stream"@,
        }
    }
}

/// The description that a `Compression` failure carries for content that
/// the length field cannot describe.
pub open spec fn too_large_text() -> Seq<char> {
    "content too large"@
}

/// The four bytes that stand for `n`, least significant first.
pub open spec fn le32(n: u32) -> Seq<u8> {
    seq![
        (n % 256) as u8,
        ((n / 256) % 256) as u8,
        ((n / 65536) % 256) as u8,
        (n / 16777216) as u8,
    ]
}

/// The number that four bytes stand for, least significant first.
pub open spec fn le32_value(bytes: Seq<u8>) -> nat
    recommends
        bytes.len() == 4,
{
    (bytes[0] + 256 * bytes[1] + 65536 * bytes[2] + 16777216 * bytes[3]) as nat
}

/// Three equal bytes start at position `i`: a run block is worth writing.
pub open spec fn starts_run(content: Seq<u8>, i: int) -> bool {
    &&& 0 <= i
    &&& i + 2 < content.len()
    &&& content[i] == content[i + 1]
    &&& content[i + 1] == content[i + 2]
}

/// The number of bytes from position `i` on that equal the byte at `i`,
/// counted up to `cap`.
pub open spec fn run_length(content: Seq<u8>, i: int, cap: nat) -> nat
    decreases cap,
{
    if cap == 0 || i < 0 || i >= content.len() {
        0
    } else if i + 1 < content.len() && content[i + 1] == content[i] {
        1 + run_length(content, i + 1, (cap - 1) as nat)
    } else {
        1
    }
}

/// The number of bytes from position `i` on that come before the next run
/// of three, counted up to `cap`.
pub open spec fn literal_length(content: Seq<u8>, i: int, cap: nat) -> nat
    decreases cap,
{
    if cap == 0 || i < 0 || i >= content.len() || starts_run(content, i) {
        0
    } else {
        1 + literal_length(content, i + 1, (cap - 1) as nat)
    }
}

/// The blocks for the content from position `i` on. Where three equal
/// bytes start, the longest run goes into a run block; elsewhere the bytes
/// up to the next such place go into a literal block.
pub open spec fn encode_blocks(content: Seq<u8>, i: int) -> Seq<u8>
    decreases content.len() - i,
    via encode_blocks_decreases
{
    if i < 0 || i >= content.len() {
        Seq::empty()
    } else if starts_run(content, i) {
        let r = run_length(content, i, MAX_RUN as nat);
        seq![(125 + r) as u8, content[i]] + encode_blocks(content, i + r)
    } else {
        let l = literal_length(content, i, MAX_LITERAL as nat);
        seq![(l - 1) as u8] + content.subrange(i, i + l) + encode_blocks(content, i + l)
    }
}

/// The stream for `content`: tag, length, blocks.
pub open spec fn encode(content: Seq<u8>) -> Seq<u8>
    recommends
        content.len() <= MAX_CONTENT_LEN,
{
    seq![FORMAT_TAG] + le32(content.len() as u32) + encode_blocks(content, 0)
}

/// The number of content bytes that a block with this control byte yields.
pub open spec fn block_yield(control: u8) -> nat {
    if control < 128 {
        (control + 1) as nat
    } else {
        (control - 125) as nat
    }
}

/// The number of stream bytes that a block with this control byte takes.
pub open spec fn block_size(control: u8) -> nat {
    if control < 128 {
        (control + 2) as nat
    } else {
        2
    }
}

/// The content of the block at the front of `body`.
pub open spec fn block_content(body: Seq<u8>) -> Seq<u8>
    recommends
        body.len() >= 1,
        body.len() >= block_size(body[0]),
{
    if body[0] < 128 {
        body.subrange(1, body[0] + 2)
    } else {
        Seq::new(block_yield(body[0]), |k: int| body[1])
    }
}

/// The content that the blocks in `body` stand for, where they are
/// complete and yield exactly `expected` bytes.
pub open spec fn decode_blocks(body: Seq<u8>, expected: nat) -> Result<Seq<u8>, CodecFault>
    decreases body.len(),
{
    if body.len() == 0 {
        if expected == 0 {
            Ok(Seq::empty())
        } else {
            Err(CodecFault::Truncated)
        }
    } else if body.len() < block_size(body[0]) {
        Err(CodecFault::Truncated)
    } else if block_yield(body[0]) > expected {
        Err(CodecFault::Corrupt)
    } else {
        match decode_blocks(
            body.skip(block_size(body[0]) as int),
            (expected - block_yield(body[0])) as nat,
        ) {
            Ok(rest) => Ok(block_content(body) + rest),
            Err(fault) => Err(fault),
        }
    }
}

/// The content that `stream` stands for, or why it stands for none.
pub open spec fn decode(stream: Seq<u8>) -> Result<Seq<u8>, CodecFault> {
    if stream.len() == 0 {
        Err(CodecFault::Truncated)
    } else if stream[0] != FORMAT_TAG {
        Err(CodecFault::UnsupportedFormat)
    } else if stream.len() < HEADER_LEN {
        Err(CodecFault::Truncated)
    } else {
        decode_blocks(stream.skip(HEADER_LEN as int), le32_value(stream.subrange(1, 5)))
    }
}

/// A run has at most `cap` bytes, ends inside the content and holds equal
/// bytes only; it has as many bytes as there are equal ones at its start,
/// up to three.
proof fn lemma_run_length_bounds(content: Seq<u8>, i: int, cap: nat)
    requires
        0 <= i <= content.len(),
    ensures
        run_length(content, i, cap) <= cap,
        i + run_length(content, i, cap) <= content.len(),
        forall|k: int|
            i <= k < i + run_length(content, i, cap) ==> #[trigger] content[k] == content[i],
        i < content.len() && cap >= 1 ==> run_length(content, i, cap) >= 1,
        i + 1 < content.len() && content[i + 1] == content[i] && cap >= 2 ==> run_length(
            content,
            i,
            cap,
        ) >= 2,
        starts_run(content, i) && cap >= 3 ==> run_length(content, i, cap) >= 3,
    decreases cap,
{
    if cap > 0 && i + 1 < content.len() && content[i + 1] == content[i] {
        lemma_run_length_bounds(content, i + 1, (cap - 1) as nat);
    }
}

/// A literal ends inside the content and has at most `cap` bytes; it has
/// at least one where no run starts at `i`.
proof fn lemma_literal_length_bounds(content: Seq<u8>, i: int, cap: nat)
    requires
        0 <= i <= content.len(),
    ensures
        literal_length(content, i, cap) <= cap,
        i + literal_length(content, i, cap) <= content.len(),
        i < content.len() && cap >= 1 && !starts_run(content, i) ==> literal_length(
            content,
            i,
            cap,
        ) >= 1,
    decreases cap,
{
    if cap > 0 && i < content.len() && !starts_run(content, i) {
        lemma_literal_length_bounds(content, i + 1, (cap - 1) as nat);
    }
}

#[via_fn]
proof fn encode_blocks_decreases(content: Seq<u8>, i: int) {
    if 0 <= i < content.len() {
        lemma_run_length_bounds(content, i, MAX_RUN as nat);
        lemma_literal_length_bounds(content, i, MAX_LITERAL as nat);
    }
}

/// The blocks written for the content from `i` on decode to that content.
proof fn lemma_blocks_round_trip(content: Seq<u8>, i: int)
    requires
        0 <= i <= content.len(),
    ensures
        decode_blocks(encode_blocks(content, i), (content.len() - i) as nat) == Ok::<
            Seq<u8>,
            CodecFault,
        >(content.skip(i)),
    decreases content.len() - i,
{
    let body = encode_blocks(content, i);
    if i >= content.len() {
        assert(content.skip(i) =~= Seq::<u8>::empty());
    } else if starts_run(content, i) {
        let r = run_length(content, i, MAX_RUN as nat);
        lemma_run_length_bounds(content, i, MAX_RUN as nat);
        let rest = encode_blocks(content, i + r);
        assert(body.skip(2) =~= rest);
        lemma_blocks_round_trip(content, i + r);
        assert(block_content(body) + content.skip(i + r) =~= content.skip(i));
    } else {
        let l = literal_length(content, i, MAX_LITERAL as nat);
        lemma_literal_length_bounds(content, i, MAX_LITERAL as nat);
        let rest = encode_blocks(content, i + l);
        assert(body.skip(l as int + 1) =~= rest);
        lemma_blocks_round_trip(content, i + l);
        assert(block_content(body) + content.skip(i + l) =~= content.skip(i));
    }
}

/// The four length bytes stand for the number they were written for.
proof fn lemma_le32_round_trip(n: u32)
    ensures
        le32(n).len() == 4,
        le32_value(le32(n)) == n,
{
}

/// Decoding undoes encoding: every content that the length field can
/// describe comes back unchanged from its own stream.
pub proof fn lemma_round_trip(content: Seq<u8>)
    requires
        content.len() <= MAX_CONTENT_LEN,
    ensures
        decode(encode(content)) == Ok::<Seq<u8>, CodecFault>(content),
{
    let stream = encode(content);
    let n = content.len() as u32;
    lemma_le32_round_trip(n);
    assert(stream.skip(HEADER_LEN as int) =~= encode_blocks(content, 0));
    lemma_blocks_round_trip(content, 0);
    assert(content.skip(0) =~= content);
}

/// Blocks that decode give exactly as many bytes as were expected.
proof fn lemma_blocks_yield_expected(body: Seq<u8>, expected: nat)
    ensures
        decode_blocks(body, expected) matches Ok(content) ==> content.len() == expected,
    decreases body.len(),
{
    if body.len() > 0 && body.len() >= block_size(body[0]) && block_yield(body[0]) <= expected {
        lemma_blocks_yield_expected(
            body.skip(block_size(body[0]) as int),
            (expected - block_yield(body[0])) as nat,
        );
    }
}

/// Nothing partial is decoded: a stream that decodes gives exactly as many
/// bytes as its header announces, and no more than the length field can
/// describe.
pub proof fn lemma_decoded_length(stream: Seq<u8>)
    ensures
        decode(stream) matches Ok(content) ==> content.len() == le32_value(stream.subrange(1, 5))
            && content.len() <= MAX_CONTENT_LEN,
{
    if stream.len() >= HEADER_LEN {
        lemma_blocks_yield_expected(
            stream.skip(HEADER_LEN as int),
            le32_value(stream.subrange(1, 5)),
        );
    }
}

/// A literal that ends before its cap and before the end of the content
/// ends where a run starts.
proof fn lemma_literal_ends_at_run(content: Seq<u8>, i: int, cap: nat)
    requires
        0 <= i <= content.len(),
    ensures
        literal_length(content, i, cap) < cap && i + literal_length(content, i, cap)
            < content.len() ==> starts_run(content, i + literal_length(content, i, cap)),
    decreases cap,
{
    if cap > 0 && i < content.len() && !starts_run(content, i) {
        lemma_literal_ends_at_run(content, i + 1, (cap - 1) as nat);
    }
}

/// The most bytes that the blocks for `len` bytes of content take.
pub open spec fn blocks_bound(len: nat) -> nat {
    if len == 0 {
        0
    } else {
        len + len / 128 + 1
    }
}

/// The blocks for the content from `i` on take no more than the bound.
proof fn lemma_blocks_bound(content: Seq<u8>, i: int)
    requires
        0 <= i <= content.len(),
    ensures
        encode_blocks(content, i).len() <= blocks_bound((content.len() - i) as nat),
    decreases content.len() - i,
{
    if i < content.len() {
        if starts_run(content, i) {
            let r = run_length(content, i, MAX_RUN as nat);
            lemma_run_length_bounds(content, i, MAX_RUN as nat);
            lemma_blocks_bound(content, i + r);
        } else {
            let l = literal_length(content, i, MAX_LITERAL as nat);
            lemma_literal_length_bounds(content, i, MAX_LITERAL as nat);
            lemma_literal_ends_at_run(content, i, MAX_LITERAL as nat);
            let j = i + l;
            if l < MAX_LITERAL && j < content.len() {
                let r = run_length(content, j, MAX_RUN as nat);
                lemma_run_length_bounds(content, j, MAX_RUN as nat);
                lemma_blocks_bound(content, j + r);
                assert(encode_blocks(content, j).len() == 2 + encode_blocks(content, j + r).len());
            } else {
                lemma_blocks_bound(content, j);
            }
        }
    }
}

/// Encoding never costs much: a stream is longer than its content by the
/// header, one byte, and one byte more for every 128 bytes of content, at
/// the most.
pub proof fn lemma_stream_length(content: Seq<u8>)
    ensures
        encode(content).len() <= HEADER_LEN + blocks_bound(content.len()),
{
    lemma_blocks_bound(content, 0);
}

/// A run found by scanning is the run that the format writes.
proof fn lemma_run_length_is(content: Seq<u8>, i: int, cap: nat, r: nat)
    requires
        0 <= i < content.len(),
        1 <= r <= cap,
        i + r <= content.len(),
        forall|k: int| i <= k < i + r ==> #[trigger] content[k] == content[i],
        r == cap || i + r == content.len() || content[i + r] != content[i],
    ensures
        run_length(content, i, cap) == r,
    decreases r,
{
    if r > 1 {
        assert forall|k: int| i + 1 <= k < i + r implies #[trigger] content[k] == content[i
            + 1] by {}
        lemma_run_length_is(content, i + 1, (cap - 1) as nat, (r - 1) as nat);
    } else if i + 1 < content.len() && content[i + 1] == content[i] {
        assert(run_length(content, i + 1, 0) == 0);
    }
}

/// A literal found by scanning is the literal that the format writes.
proof fn lemma_literal_length_is(content: Seq<u8>, i: int, cap: nat, l: nat)
    requires
        0 <= i,
        l <= cap,
        i + l <= content.len(),
        forall|k: int| i <= k < i + l ==> !#[trigger] starts_run(content, k),
        l == cap || i + l == content.len() || starts_run(content, i + l),
    ensures
        literal_length(content, i, cap) == l,
    decreases l,
{
    if l > 0 {
        lemma_literal_length_is(content, i + 1, (cap - 1) as nat, (l - 1) as nat);
    }
}

/// The failure that stands for a fault of the decoder.
fn fault_error(fault: CodecFault) -> (err: Error)
    ensures
        err matches Error::Compression(detail) && detail@ == fault.text(),
{
    match fault {
        CodecFault::Truncated => Error::Compression(String::from_str("truncated input")),
        CodecFault::UnsupportedFormat => Error::Compression(
            String::from_str("unsupported format"),
        ),
        CodecFault::Corrupt => Error::Compression(String::from_str("corrupt stream")),
    }
}

/// Appends the bytes of `bytes` from `from` up to `to` to `out`.
fn push_range(out: &mut Vec<u8>, bytes: &[u8], from: usize, to: usize)
    requires
        from <= to <= bytes@.len(),
    ensures
        final(out)@ == old(out)@ + bytes@.subrange(from as int, to as int),
{
    let mut k: usize = from;
    while k < to
        invariant
            from <= k <= to <= bytes@.len(),
            out@ == old(out)@ + bytes@.subrange(from as int, k as int),
        decreases to - k,
    {
        out.push(bytes[k]);
        k += 1;
        assert(bytes@.subrange(from as int, k as int) =~= bytes@.subrange(
            from as int,
            k as int - 1,
        ).push(bytes@[k as int - 1]));
    }
}

/// Appends `byte` to `out`, `count` times.
fn push_repeated(out: &mut Vec<u8>, byte: u8, count: usize)
    ensures
        final(out)@ == old(out)@ + Seq::new(count as nat, |k: int| byte),
{
    let mut k: usize = 0;
    while k < count
        invariant
            k <= count,
            out@ == old(out)@ + Seq::new(k as nat, |j: int| byte),
        decreases count - k,
    {
        out.push(byte);
        k += 1;
        assert(Seq::new(k as nat, |j: int| byte) =~= Seq::new((k - 1) as nat, |j: int| byte).push(
            byte,
        ));
    }
}

/// Whether three equal bytes start at position `i`.
fn run_starts_at(content: &[u8], i: usize) -> (yes: bool)
    requires
        i <= content@.len(),
    ensures
        yes == starts_run(content@, i as int),
{
    content.len() - i > 2 && content[i] == content[i + 1] && content[i + 1] == content[i + 2]
}

/// Writes `content` as a stream of this format. Content of more than
/// `MAX_CONTENT_LEN` bytes is refused with a `Compression` failure; any
/// other content is encoded.
pub fn compress(content: &[u8]) -> (stream: Result<Vec<u8>, Error>)
    ensures
        match stream {
            Ok(bytes) => content@.len() <= MAX_CONTENT_LEN && bytes@ == encode(content@),
            Err(err) => content@.len() > MAX_CONTENT_LEN && (err matches Error::Compression(
                detail,
            ) && detail@ == too_large_text()),
        },
{
    let n: usize = content.len();
    if n > MAX_CONTENT_LEN {
        return Err(Error::Compression(String::from_str("content too large")));
    }
    let mut out: Vec<u8> = Vec::new();
    out.push(FORMAT_TAG);
    out.push((n % 256) as u8);
    out.push(((n / 256) % 256) as u8);
    out.push(((n / 65536) % 256) as u8);
    out.push((n / 16777216) as u8);
    let mut i: usize = 0;
    while i < n
        invariant
            i <= n,
            n == content@.len(),
            out@ + encode_blocks(content@, i as int) == encode(content@),
        decreases n - i,
    {
        let ghost before = out@;
        if run_starts_at(content, i) {
            let mut r: usize = MIN_RUN;
            while r < MAX_RUN && i + r < n && content[i + r] == content[i]
                invariant
                    MIN_RUN <= r <= MAX_RUN,
                    i + r <= n,
                    n == content@.len(),
                    forall|k: int| i <= k < i + r ==> #[trigger] content@[k] == content@[i as int],
                decreases n - r,
            {
                r += 1;
            }
            proof {
                lemma_run_length_is(content@, i as int, MAX_RUN as nat, r as nat);
            }
            out.push((125 + r) as u8);
            out.push(content[i]);
            i += r;
        } else {
            let mut l: usize = 1;
            while l < MAX_LITERAL && i + l < n && !run_starts_at(content, i + l)
                invariant
                    1 <= l <= MAX_LITERAL,
                    i + l <= n,
                    n == content@.len(),
                    forall|k: int| i <= k < i + l ==> !#[trigger] starts_run(content@, k),
                decreases n - l,
            {
                l += 1;
            }
            proof {
                lemma_literal_length_is(content@, i as int, MAX_LITERAL as nat, l as nat);
            }
            out.push((l - 1) as u8);
            push_range(&mut out, content, i, i + l);
            assert(out@ =~= before + (seq![(l - 1) as u8] + content@.subrange(
                i as int,
                i + l,
            )));
            i += l;
        }
    }
    Ok(out)
}

/// What is decoded once `out` has been produced and `tail` is the outcome
/// for the rest of the blocks.
spec fn resumed(out: Seq<u8>, tail: Result<Seq<u8>, CodecFault>) -> Result<Seq<u8>, CodecFault> {
    match tail {
        Ok(rest) => Ok(out + rest),
        Err(fault) => Err(fault),
    }
}

/// Reads the content back from a stream of this format. A stream that
/// decodes gives its content; any other gives a `Compression` failure that
/// names the fault. Nothing partial is ever returned.
pub fn decompress(stream: &[u8]) -> (content: Result<Vec<u8>, Error>)
    ensures
        match decode(stream@) {
            Ok(bytes) => content matches Ok(out) && out@ == bytes,
            Err(fault) => content matches Err(Error::Compression(detail)) && detail@
                == fault.text(),
        },
{
    let n: usize = stream.len();
    if n == 0 {
        return Err(fault_error(CodecFault::Truncated));
    }
    if stream[0] != FORMAT_TAG {
        return Err(fault_error(CodecFault::UnsupportedFormat));
    }
    if n < HEADER_LEN {
        return Err(fault_error(CodecFault::Truncated));
    }
    let expected: usize = stream[1] as usize + 256 * (stream[2] as usize) + 65536 * (
    stream[3] as usize) + 16777216 * (stream[4] as usize);
    let ghost body = stream@.skip(HEADER_LEN as int);
    let mut out: Vec<u8> = Vec::new();
    let mut pos: usize = HEADER_LEN;
    let mut remaining: usize = expected;
    while pos < n
        invariant
            HEADER_LEN <= pos <= n,
            n == stream@.len(),
            remaining <= expected,
            decode(stream@) == decode_blocks(body, expected as nat),
            decode_blocks(body, expected as nat) == resumed(
                out@,
                decode_blocks(stream@.skip(pos as int), remaining as nat),
            ),
        decreases n - pos,
    {
        let ghost tail = stream@.skip(pos as int);
        let ghost before = out@;
        let control: u8 = stream[pos];
        let size: usize = if control < 128 {
            control as usize + 2
        } else {
            2
        };
        let amount: usize = if control < 128 {
            control as usize + 1
        } else {
            control as usize - 125
        };
        if n - pos < size {
            return Err(fault_error(CodecFault::Truncated));
        }
        if amount > remaining {
            return Err(fault_error(CodecFault::Corrupt));
        }
        if control < 128 {
            push_range(&mut out, stream, pos + 1, pos + size);
        } else {
            push_repeated(&mut out, stream[pos + 1], amount);
        }
        pos += size;
        remaining -= amount;
        proof {
            assert(tail.skip(size as int) =~= stream@.skip(pos as int));
            let next = decode_blocks(stream@.skip(pos as int), remaining as nat);
            assert(decode_blocks(tail, (remaining + amount) as nat) == resumed(
                block_content(tail),
                next,
            ));
            match next {
                Ok(rest) => {
                    assert(before + (block_content(tail) + rest) =~= out@ + rest);
                },
                Err(_) => {},
            }
        }
    }
    if remaining != 0 {
        return Err(fault_error(CodecFault::Truncated));
    }
    Ok(out)
}

} // verus!
