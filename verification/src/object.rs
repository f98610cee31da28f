//! Binary object formats.
//!
//! The canonical format is a flat sequence of 32-bit words, each stored
//! least-significant-byte-first, with no header or length prefix; a file
//! whose length is not a multiple of 4 has its trailing partial word
//! discarded. A legacy variant prefixes 8 bytes — a big-endian magic
//! constant followed by a big-endian instruction count — and stores the
//! words themselves big-endian. The two are separate, non-interoperable
//! formats, selected explicitly; neither is baked into encode or decode.

use vstd::prelude::*;

verus! {

/// The magic constant of the legacy container, stored big-endian.
pub const LEGACY_MAGIC: u32 = 0xC0FFEE;

// ------------------------------------------------------------------
// One word to bytes and back
// ------------------------------------------------------------------
/// The four bytes of a word, least significant first.
pub open spec fn spec_le_word_bytes(w: u32) -> Seq<u8> {
    seq![
        (w & 0xFF) as u8,
        ((w >> 8) & 0xFF) as u8,
        ((w >> 16) & 0xFF) as u8,
        ((w >> 24) & 0xFF) as u8,
    ]
}

/// The four bytes of a word, most significant first.
pub open spec fn spec_be_word_bytes(w: u32) -> Seq<u8> {
    seq![
        ((w >> 24) & 0xFF) as u8,
        ((w >> 16) & 0xFF) as u8,
        ((w >> 8) & 0xFF) as u8,
        (w & 0xFF) as u8,
    ]
}

/// The word four little-endian bytes assemble to.
pub open spec fn spec_word_from_le(b0: u8, b1: u8, b2: u8, b3: u8) -> u32 {
    (b0 as u32) | ((b1 as u32) << 8) | ((b2 as u32) << 16) | ((b3 as u32) << 24)
}

/// The word four big-endian bytes assemble to.
pub open spec fn spec_word_from_be(b0: u8, b1: u8, b2: u8, b3: u8) -> u32 {
    ((b0 as u32) << 24) | ((b1 as u32) << 16) | ((b2 as u32) << 8) | (b3 as u32)
}

proof fn lemma_le_word_round_trip(w: u32)
    by (bit_vector)
    ensures
        spec_word_from_le(
            (w & 0xFF) as u8,
            ((w >> 8) & 0xFF) as u8,
            ((w >> 16) & 0xFF) as u8,
            ((w >> 24) & 0xFF) as u8,
        ) == w,
{
}

proof fn lemma_be_word_round_trip(w: u32)
    by (bit_vector)
    ensures
        spec_word_from_be(
            ((w >> 24) & 0xFF) as u8,
            ((w >> 16) & 0xFF) as u8,
            ((w >> 8) & 0xFF) as u8,
            (w & 0xFF) as u8,
        ) == w,
{
}

// ------------------------------------------------------------------
// Word sequences to bytes and back
// ------------------------------------------------------------------
/// The raw little-endian byte stream of a word sequence.
pub open spec fn spec_words_to_le_bytes(ws: Seq<u32>) -> Seq<u8>
    decreases ws.len(),
{
    if ws.len() == 0 {
        Seq::empty()
    } else {
        spec_le_word_bytes(ws[0]) + spec_words_to_le_bytes(ws.subrange(1, ws.len() as int))
    }
}

/// The words of a little-endian byte stream, in groups of four; a trailing
/// partial word is discarded.
pub open spec fn spec_le_bytes_to_words(bs: Seq<u8>) -> Seq<u32>
    decreases bs.len(),
{
    if bs.len() < 4 {
        Seq::empty()
    } else {
        seq![spec_word_from_le(bs[0], bs[1], bs[2], bs[3])] + spec_le_bytes_to_words(
            bs.subrange(4, bs.len() as int),
        )
    }
}

/// The big-endian byte stream of a word sequence (the legacy word layout).
pub open spec fn spec_words_to_be_bytes(ws: Seq<u32>) -> Seq<u8>
    decreases ws.len(),
{
    if ws.len() == 0 {
        Seq::empty()
    } else {
        spec_be_word_bytes(ws[0]) + spec_words_to_be_bytes(ws.subrange(1, ws.len() as int))
    }
}

/// The words of a big-endian byte stream, in groups of four.
pub open spec fn spec_be_bytes_to_words(bs: Seq<u8>) -> Seq<u32>
    decreases bs.len(),
{
    if bs.len() < 4 {
        Seq::empty()
    } else {
        seq![spec_word_from_be(bs[0], bs[1], bs[2], bs[3])] + spec_be_bytes_to_words(
            bs.subrange(4, bs.len() as int),
        )
    }
}

proof fn lemma_words_to_le_bytes_push(ws: Seq<u32>, w: u32)
    ensures
        spec_words_to_le_bytes(ws.push(w)) == spec_words_to_le_bytes(ws) + spec_le_word_bytes(w),
    decreases ws.len(),
{
    if ws.len() == 0 {
        let single = ws.push(w);
        assert(single[0] == w);
        assert(single.subrange(1, 1) =~= Seq::<u32>::empty());
        assert(ws =~= Seq::<u32>::empty());
        assert(spec_words_to_le_bytes(Seq::<u32>::empty()) =~= Seq::<u8>::empty());
        assert(spec_words_to_le_bytes(single) =~= spec_words_to_le_bytes(ws)
            + spec_le_word_bytes(w));
    } else {
        let rest = ws.subrange(1, ws.len() as int);
        assert(ws.push(w)[0] == ws[0]);
        assert(ws.push(w).subrange(1, ws.len() as int + 1) =~= rest.push(w));
        lemma_words_to_le_bytes_push(rest, w);
        assert(spec_words_to_le_bytes(ws.push(w)) == spec_le_word_bytes(ws[0]) + (
        spec_words_to_le_bytes(rest) + spec_le_word_bytes(w)));
        assert(spec_le_word_bytes(ws[0]) + (spec_words_to_le_bytes(rest) + spec_le_word_bytes(w))
            =~= (spec_le_word_bytes(ws[0]) + spec_words_to_le_bytes(rest)) + spec_le_word_bytes(
            w,
        ));
    }
}

proof fn lemma_words_to_be_bytes_push(ws: Seq<u32>, w: u32)
    ensures
        spec_words_to_be_bytes(ws.push(w)) == spec_words_to_be_bytes(ws) + spec_be_word_bytes(w),
    decreases ws.len(),
{
    if ws.len() == 0 {
        let single = ws.push(w);
        assert(single[0] == w);
        assert(single.subrange(1, 1) =~= Seq::<u32>::empty());
        assert(ws =~= Seq::<u32>::empty());
        assert(spec_words_to_be_bytes(Seq::<u32>::empty()) =~= Seq::<u8>::empty());
        assert(spec_words_to_be_bytes(single) =~= spec_words_to_be_bytes(ws)
            + spec_be_word_bytes(w));
    } else {
        let rest = ws.subrange(1, ws.len() as int);
        assert(ws.push(w)[0] == ws[0]);
        assert(ws.push(w).subrange(1, ws.len() as int + 1) =~= rest.push(w));
        lemma_words_to_be_bytes_push(rest, w);
        assert(spec_words_to_be_bytes(ws.push(w)) == spec_be_word_bytes(ws[0]) + (
        spec_words_to_be_bytes(rest) + spec_be_word_bytes(w)));
        assert(spec_be_word_bytes(ws[0]) + (spec_words_to_be_bytes(rest) + spec_be_word_bytes(w))
            =~= (spec_be_word_bytes(ws[0]) + spec_words_to_be_bytes(rest)) + spec_be_word_bytes(
            w,
        ));
    }
}

/// Writing words as little-endian bytes and reading them back yields the
/// same words: the byte layout loses nothing.
pub proof fn lemma_le_stream_round_trip(ws: Seq<u32>)
    ensures
        spec_le_bytes_to_words(spec_words_to_le_bytes(ws)) == ws,
    decreases ws.len(),
{
    if ws.len() == 0 {
        assert(spec_le_bytes_to_words(spec_words_to_le_bytes(ws)) =~= ws);
    } else {
        let bs = spec_words_to_le_bytes(ws);
        let rest = ws.subrange(1, ws.len() as int);
        assert(bs.subrange(4, bs.len() as int) =~= spec_words_to_le_bytes(rest));
        lemma_le_word_round_trip(ws[0]);
        lemma_le_stream_round_trip(rest);
        assert(spec_le_bytes_to_words(bs) =~= ws);
    }
}

/// The same, for the legacy big-endian word layout.
pub proof fn lemma_be_stream_round_trip(ws: Seq<u32>)
    ensures
        spec_be_bytes_to_words(spec_words_to_be_bytes(ws)) == ws,
    decreases ws.len(),
{
    if ws.len() == 0 {
        assert(spec_be_bytes_to_words(spec_words_to_be_bytes(ws)) =~= ws);
    } else {
        let bs = spec_words_to_be_bytes(ws);
        let rest = ws.subrange(1, ws.len() as int);
        assert(bs.subrange(4, bs.len() as int) =~= spec_words_to_be_bytes(rest));
        lemma_be_word_round_trip(ws[0]);
        lemma_be_stream_round_trip(rest);
        assert(spec_be_bytes_to_words(bs) =~= ws);
    }
}

// ------------------------------------------------------------------
// Executable conversions, raw format
// ------------------------------------------------------------------
/// Serialize words to the raw little-endian stream.
pub fn words_to_le_bytes(words: &[u32]) -> (buf: Vec<u8>)
    ensures
        buf@ == spec_words_to_le_bytes(words@),
{
    let mut buf: Vec<u8> = Vec::new();
    let n = words.len();
    let mut i: usize = 0;
    proof {
        assert(words@.subrange(0, 0) =~= Seq::<u32>::empty());
        assert(buf@ =~= spec_words_to_le_bytes(words@.subrange(0, 0)));
    }
    while i < n
        invariant
            0 <= i <= n,
            n == words@.len(),
            buf@ == spec_words_to_le_bytes(words@.subrange(0, i as int)),
        decreases n - i,
    {
        let w = words[i];
        buf.push((w & 0xFF) as u8);
        buf.push(((w >> 8) & 0xFF) as u8);
        buf.push(((w >> 16) & 0xFF) as u8);
        buf.push(((w >> 24) & 0xFF) as u8);
        proof {
            assert(words@.subrange(0, i as int + 1) =~= words@.subrange(0, i as int).push(w));
            lemma_words_to_le_bytes_push(words@.subrange(0, i as int), w);
            assert(buf@ =~= spec_words_to_le_bytes(words@.subrange(0, i as int))
                + spec_le_word_bytes(w));
        }
        i = i + 1;
    }
    proof {
        assert(words@.subrange(0, n as int) =~= words@);
    }
    buf
}

/// Deserialize the raw little-endian stream; a trailing partial word is
/// discarded.
pub fn le_bytes_to_words(bytes: &[u8]) -> (words: Vec<u32>)
    ensures
        words@ == spec_le_bytes_to_words(bytes@),
{
    let n = bytes.len();
    let mut words: Vec<u32> = Vec::new();
    let mut i: usize = 0;
    proof {
        assert(bytes@.subrange(0, n as int) =~= bytes@);
        assert(Seq::<u32>::empty() + spec_le_bytes_to_words(bytes@) =~= spec_le_bytes_to_words(
            bytes@,
        ));
    }
    while n - i >= 4
        invariant
            0 <= i <= n,
            n == bytes@.len(),
            spec_le_bytes_to_words(bytes@) == words@ + spec_le_bytes_to_words(
                bytes@.subrange(i as int, n as int),
            ),
        decreases n - i,
    {
        let w = word_from_le_exec(bytes[i], bytes[i + 1], bytes[i + 2], bytes[i + 3]);
        proof {
            let rest = bytes@.subrange(i as int, n as int);
            assert(rest[0] == bytes@[i as int] && rest[1] == bytes@[i as int + 1] && rest[2]
                == bytes@[i as int + 2] && rest[3] == bytes@[i as int + 3]);
            assert(rest.subrange(4, rest.len() as int) =~= bytes@.subrange(
                i as int + 4,
                n as int,
            ));
            assert(words@ + (seq![w] + spec_le_bytes_to_words(
                bytes@.subrange(i as int + 4, n as int),
            )) =~= words@.push(w) + spec_le_bytes_to_words(bytes@.subrange(i as int + 4, n as int)));
        }
        words.push(w);
        i = i + 4;
    }
    proof {
        assert(spec_le_bytes_to_words(bytes@.subrange(i as int, n as int)) =~= Seq::<u32>::empty());
        assert(words@ + Seq::<u32>::empty() =~= words@);
    }
    words
}

fn word_from_le_exec(b0: u8, b1: u8, b2: u8, b3: u8) -> (w: u32)
    ensures
        w == spec_word_from_le(b0, b1, b2, b3),
{
    (b0 as u32) | ((b1 as u32) << 8) | ((b2 as u32) << 16) | ((b3 as u32) << 24)
}

fn word_from_be_exec(b0: u8, b1: u8, b2: u8, b3: u8) -> (w: u32)
    ensures
        w == spec_word_from_be(b0, b1, b2, b3),
{
    ((b0 as u32) << 24) | ((b1 as u32) << 16) | ((b2 as u32) << 8) | (b3 as u32)
}

// ------------------------------------------------------------------
// Executable conversions, legacy format
// ------------------------------------------------------------------
/// The whole legacy container: big-endian magic, big-endian count, then the
/// words big-endian.
pub open spec fn spec_words_to_legacy_bytes(ws: Seq<u32>) -> Seq<u8>
    recommends
        ws.len() <= 0xFFFFFFFF,
{
    spec_be_word_bytes(LEGACY_MAGIC) + spec_be_word_bytes(ws.len() as u32)
        + spec_words_to_be_bytes(ws)
}

/// What a legacy container holds: `None` unless the magic matches and the
/// length is exactly the header plus the announced count of words.
pub open spec fn spec_legacy_bytes_to_words(bs: Seq<u8>) -> Option<Seq<u32>> {
    if bs.len() < 8 {
        None
    } else {
        let magic = spec_word_from_be(bs[0], bs[1], bs[2], bs[3]);
        let count = spec_word_from_be(bs[4], bs[5], bs[6], bs[7]);
        if magic != LEGACY_MAGIC || bs.len() != 8 + 4 * (count as int) {
            None
        } else {
            Some(spec_be_bytes_to_words(bs.subrange(8, bs.len() as int)))
        }
    }
}

/// Serialize words to the legacy container.
pub fn words_to_legacy_bytes(words: &[u32]) -> (buf: Vec<u8>)
    requires
        words@.len() <= 0xFFFFFFFF,
    ensures
        buf@ == spec_words_to_legacy_bytes(words@),
{
    let mut buf: Vec<u8> = Vec::new();
    push_be_word(&mut buf, LEGACY_MAGIC);
    push_be_word(&mut buf, words.len() as u32);
    let n = words.len();
    let mut i: usize = 0;
    proof {
        assert(words@.subrange(0, 0) =~= Seq::<u32>::empty());
        assert(buf@ =~= spec_be_word_bytes(LEGACY_MAGIC) + spec_be_word_bytes(words@.len() as u32)
            + spec_words_to_be_bytes(words@.subrange(0, 0)));
    }
    while i < n
        invariant
            0 <= i <= n,
            n == words@.len(),
            buf@ == spec_be_word_bytes(LEGACY_MAGIC) + spec_be_word_bytes(words@.len() as u32)
                + spec_words_to_be_bytes(words@.subrange(0, i as int)),
        decreases n - i,
    {
        let w = words[i];
        push_be_word(&mut buf, w);
        proof {
            assert(words@.subrange(0, i as int + 1) =~= words@.subrange(0, i as int).push(w));
            lemma_words_to_be_bytes_push(words@.subrange(0, i as int), w);
            assert(buf@ =~= spec_be_word_bytes(LEGACY_MAGIC) + spec_be_word_bytes(
                words@.len() as u32,
            ) + spec_words_to_be_bytes(words@.subrange(0, i as int + 1)));
        }
        i = i + 1;
    }
    proof {
        assert(words@.subrange(0, n as int) =~= words@);
    }
    buf
}

fn push_be_word(buf: &mut Vec<u8>, w: u32)
    ensures
        final (buf)@ == old(buf)@ + spec_be_word_bytes(w),
{
    buf.push(((w >> 24) & 0xFF) as u8);
    buf.push(((w >> 16) & 0xFF) as u8);
    buf.push(((w >> 8) & 0xFF) as u8);
    buf.push((w & 0xFF) as u8);
    proof {
        assert(buf@ =~= old(buf)@ + spec_be_word_bytes(w));
    }
}

/// Deserialize the legacy container, `None` where the magic or the announced
/// count does not match the data.
pub fn legacy_bytes_to_words(bytes: &[u8]) -> (r: Option<Vec<u32>>)
    ensures
        (match (r, spec_legacy_bytes_to_words(bytes@)) {
            (Some(v), Some(ws)) => v@ == ws,
            (None, None) => true,
            _ => false,
        }),
{
    let n = bytes.len();
    if n < 8 {
        return None;
    }
    let magic = word_from_be_exec(bytes[0], bytes[1], bytes[2], bytes[3]);
    let count = word_from_be_exec(bytes[4], bytes[5], bytes[6], bytes[7]);
    if magic != LEGACY_MAGIC {
        return None;
    }
    if (n as u64) != 8u64 + 4u64 * (count as u64) {
        return None;
    }
    let mut words: Vec<u32> = Vec::new();
    let mut i: usize = 8;
    proof {
        assert(bytes@.subrange(8, n as int) =~= bytes@.subrange(8, n as int));
        assert(Seq::<u32>::empty() + spec_be_bytes_to_words(bytes@.subrange(8, n as int))
            =~= spec_be_bytes_to_words(bytes@.subrange(8, n as int)));
    }
    while n - i >= 4
        invariant
            8 <= i <= n,
            n == bytes@.len(),
            spec_be_bytes_to_words(bytes@.subrange(8, n as int)) == words@ + spec_be_bytes_to_words(
                bytes@.subrange(i as int, n as int),
            ),
        decreases n - i,
    {
        let w = word_from_be_exec(bytes[i], bytes[i + 1], bytes[i + 2], bytes[i + 3]);
        proof {
            let rest = bytes@.subrange(i as int, n as int);
            assert(rest[0] == bytes@[i as int] && rest[1] == bytes@[i as int + 1] && rest[2]
                == bytes@[i as int + 2] && rest[3] == bytes@[i as int + 3]);
            assert(rest.subrange(4, rest.len() as int) =~= bytes@.subrange(
                i as int + 4,
                n as int,
            ));
            assert(words@ + (seq![w] + spec_be_bytes_to_words(
                bytes@.subrange(i as int + 4, n as int),
            )) =~= words@.push(w) + spec_be_bytes_to_words(bytes@.subrange(i as int + 4, n as int)));
        }
        words.push(w);
        i = i + 4;
    }
    proof {
        assert(spec_be_bytes_to_words(bytes@.subrange(i as int, n as int)) =~= Seq::<u32>::empty());
        assert(words@ + Seq::<u32>::empty() =~= words@);
    }
    Some(words)
}

// ------------------------------------------------------------------
// Format selection
// ------------------------------------------------------------------
/// The two container conventions; callers pick one explicitly and may not
/// mix them within one file.
#[derive(Clone, Copy, PartialEq, Eq, Structural, Debug)]
pub enum ObjectFormat {
    /// Raw little-endian word stream, no header.
    RawLittleEndian,
    /// Big-endian magic and count header, big-endian words.
    LegacyBigEndian,
}

/// Serialize words under the chosen format.
pub fn object_bytes(format: ObjectFormat, words: &[u32]) -> (buf: Vec<u8>)
    requires
        format == ObjectFormat::LegacyBigEndian ==> words@.len() <= 0xFFFFFFFF,
    ensures
        format == ObjectFormat::RawLittleEndian ==> buf@ == spec_words_to_le_bytes(words@),
        format == ObjectFormat::LegacyBigEndian ==> buf@ == spec_words_to_legacy_bytes(words@),
{
    match format {
        ObjectFormat::RawLittleEndian => words_to_le_bytes(words),
        ObjectFormat::LegacyBigEndian => words_to_legacy_bytes(words),
    }
}

/// Deserialize a file under the chosen format. The raw format never fails
/// (a trailing partial word is discarded); the legacy format fails on a bad
/// magic or a count that does not match the file length.
pub fn object_words(format: ObjectFormat, bytes: &[u8]) -> (r: Option<Vec<u32>>)
    ensures
        format == ObjectFormat::RawLittleEndian ==> (match r {
            Some(v) => v@ == spec_le_bytes_to_words(bytes@),
            None => false,
        }),
        format == ObjectFormat::LegacyBigEndian ==> (match (
            r,
            spec_legacy_bytes_to_words(bytes@),
        ) {
            (Some(v), Some(ws)) => v@ == ws,
            (None, None) => true,
            _ => false,
        }),
{
    match format {
        ObjectFormat::RawLittleEndian => Some(le_bytes_to_words(bytes)),
        ObjectFormat::LegacyBigEndian => legacy_bytes_to_words(bytes),
    }
}

} // verus!
