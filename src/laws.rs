use vstd::prelude::*;
use vstd::utf8::{decode_utf8, encode_utf8, encode_utf8_decode_utf8, encode_utf8_valid_utf8};
use crate::bytes::{be_bytes, be_value, lemma_be_value_of_bytes, lemma_be_bytes_of_value};
use crate::checksum::crc32_of;
use crate::chunk::{ChunkModel, chunk_bytes, chunk_crc, declared_len, parse_chunk};
use crate::chunk_type::{is_upper, type_code_of_text, valid_type_code};
use crate::commands::{carries_message, encoded, keeps, messages, removed};
use crate::error::PngError;
use crate::png::{
    chunks_bytes, has_type, parse_chunks, parse_png, png_bytes, png_signature, prepend_chunks,
};

verus! {

/// Where the parts of a chunk's wire form stand.
proof fn lemma_chunk_bytes_parts(m: ChunkModel)
    requires
        m.chunk_type.len() == 4,
        m.data.len() <= u32::MAX,
    ensures
        ({
            let b = chunk_bytes(m);
            let len = m.data.len() as int;
            &&& b.len() == 12 + len
            &&& b.subrange(0, 4) == be_bytes(len as u32)
            &&& b.subrange(4, 8) == m.chunk_type
            &&& b.subrange(8, 8 + len) == m.data
            &&& b.subrange(8 + len, 12 + len) == be_bytes(chunk_crc(m))
            &&& declared_len(b) == len
        }),
{
    let b = chunk_bytes(m);
    let len = m.data.len() as int;
    assert(b.subrange(0, 4) =~= be_bytes(len as u32));
    assert(b.subrange(4, 8) =~= m.chunk_type);
    assert(b.subrange(8, 8 + len) =~= m.data);
    assert(b.subrange(8 + len, 12 + len) =~= be_bytes(chunk_crc(m)));
    lemma_be_value_of_bytes(len as u32);
}

/// A fresh chunk, written out and read back, is the same chunk: same type
/// code and payload, and so the same length and checksum.
pub proof fn lemma_chunk_round_trip(chunk_type: Seq<u8>, data: Seq<u8>)
    requires
        valid_type_code(chunk_type),
        data.len() <= u32::MAX,
    ensures
        parse_chunk(chunk_bytes(ChunkModel { chunk_type, data })) == Ok::<ChunkModel, PngError>(
            ChunkModel { chunk_type, data },
        ),
{
    reveal(parse_chunk);
    let m = ChunkModel { chunk_type, data };
    lemma_chunk_bytes_parts(m);
    lemma_be_value_of_bytes(chunk_crc(m));
}

/// Changing any byte of a chunk's stored checksum (so flipping any of its
/// bits) makes the chunk fail to decode with `ChecksumMismatch`.
pub proof fn lemma_checksum_tamper_detected(chunk_type: Seq<u8>, data: Seq<u8>, k: int, v: u8)
    requires
        valid_type_code(chunk_type),
        data.len() <= u32::MAX,
        8 + data.len() <= k < 12 + data.len(),
        v != chunk_bytes(ChunkModel { chunk_type, data })[k],
    ensures
        parse_chunk(chunk_bytes(ChunkModel { chunk_type, data }).update(k, v)) == Err::<
            ChunkModel,
            PngError,
        >(PngError::ChecksumMismatch),
{
    reveal(parse_chunk);
    let m = ChunkModel { chunk_type, data };
    let b = chunk_bytes(m);
    let t = b.update(k, v);
    let len = data.len() as int;
    lemma_chunk_bytes_parts(m);
    assert(t.subrange(0, 4) =~= b.subrange(0, 4));
    assert(t.subrange(4, 8) =~= b.subrange(4, 8));
    assert(t.subrange(8, 8 + len) =~= b.subrange(8, 8 + len));
    let stored = t.subrange(8 + len, 12 + len);
    lemma_be_bytes_of_value(stored);
    assert(stored[k - 8 - len] != b.subrange(8 + len, 12 + len)[k - 8 - len]);
    assert(be_value(stored) != chunk_crc(m));
}

/// Changing any byte of a chunk's payload (so flipping any of its bits)
/// leaves a chunk that decodes only if the changed payload has the same
/// checksum as the unchanged payload, and fails with `ChecksumMismatch` otherwise.
pub proof fn lemma_payload_tamper_needs_same_checksum(
    chunk_type: Seq<u8>,
    data: Seq<u8>,
    k: int,
    v: u8,
)
    requires
        valid_type_code(chunk_type),
        data.len() <= u32::MAX,
        0 <= k < data.len(),
        v != data[k],
    ensures
        parse_chunk(chunk_bytes(ChunkModel { chunk_type, data }).update(8 + k, v)) == if crc32_of(
            chunk_type + data.update(k, v),
        ) == crc32_of(chunk_type + data) {
            Ok::<ChunkModel, PngError>(ChunkModel { chunk_type, data: data.update(k, v) })
        } else {
            Err::<ChunkModel, PngError>(PngError::ChecksumMismatch)
        },
{
    reveal(parse_chunk);
    let m = ChunkModel { chunk_type, data };
    let b = chunk_bytes(m);
    let t = b.update(8 + k, v);
    let len = data.len() as int;
    lemma_chunk_bytes_parts(m);
    lemma_be_value_of_bytes(chunk_crc(m));
    assert(t.subrange(0, 4) =~= b.subrange(0, 4));
    assert(t.subrange(4, 8) =~= b.subrange(4, 8));
    assert(t.subrange(8, 8 + len) =~= data.update(k, v));
    assert(t.subrange(8 + len, 12 + len) =~= b.subrange(8 + len, 12 + len));
}

/// A chunk decoded from the front of `b`, written out again, gives back the
/// bytes that it was decoded from.
proof fn lemma_parsed_chunk_bytes(b: Seq<u8>)
    requires
        parse_chunk(b) is Ok,
    ensures
        chunk_bytes(parse_chunk(b)->Ok_0) == b.subrange(
            0,
            12 + parse_chunk(b)->Ok_0.data.len() as int,
        ),
        12 + parse_chunk(b)->Ok_0.data.len() <= b.len(),
{
    reveal(parse_chunk);
    let m = parse_chunk(b)->Ok_0;
    let len = declared_len(b);
    assert(m.data.len() == len);
    lemma_be_bytes_of_value(b.subrange(0, 4));
    lemma_be_bytes_of_value(b.subrange(8 + len, 12 + len));
    assert(chunk_bytes(m) =~= b.subrange(0, 12 + len));
}

/// Chunks decoded from bytes, written out again, give back those bytes.
proof fn lemma_chunks_round_trip(b: Seq<u8>)
    requires
        parse_chunks(b) is Ok,
    ensures
        chunks_bytes(parse_chunks(b)->Ok_0) == b,
    decreases b.len(),
{
    if b.len() > 0 {
        let m = parse_chunk(b)->Ok_0;
        let len = m.data.len() as int;
        let rest = b.subrange(12 + len, b.len() as int);
        lemma_chunks_round_trip(rest);
        let s = parse_chunks(rest)->Ok_0;
        let all = seq![m] + s;
        assert(parse_chunks(b)->Ok_0 == all);
        assert(all[0] == m);
        assert(all.drop_first() =~= s);
        lemma_parsed_chunk_bytes(b);
        assert(chunks_bytes(all) == chunk_bytes(m) + chunks_bytes(s));
        assert(b =~= b.subrange(0, 12 + len) + rest);
    }
}

/// A container decoded from bytes, written out again, gives back those bytes.
pub proof fn lemma_png_round_trip(b: Seq<u8>)
    requires
        parse_png(b) is Ok,
    ensures
        png_bytes(parse_png(b)->Ok_0) == b,
{
    lemma_chunks_round_trip(b.subrange(8, b.len() as int));
    assert(png_signature() + b.subrange(8, b.len() as int) =~= b);
}

/// Every chunk has a valid type code and a payload whose length fits in
/// the length field.
pub open spec fn valid_chunks(s: Seq<ChunkModel>) -> bool {
    forall|i: int|
        0 <= i < s.len() ==> valid_type_code((#[trigger] s[i]).chunk_type) && s[i].data.len()
            <= u32::MAX
}

/// A chunk is decoded from the front of its wire form whatever follows it.
proof fn lemma_parse_chunk_prefix(m: ChunkModel, rest: Seq<u8>)
    requires
        valid_type_code(m.chunk_type),
        m.data.len() <= u32::MAX,
    ensures
        parse_chunk(chunk_bytes(m) + rest) == Ok::<ChunkModel, PngError>(m),
{
    reveal(parse_chunk);
    let c = chunk_bytes(m);
    let b = c + rest;
    let len = m.data.len() as int;
    lemma_chunk_bytes_parts(m);
    lemma_be_value_of_bytes(chunk_crc(m));
    assert(b.subrange(0, 4) =~= c.subrange(0, 4));
    assert(b.subrange(4, 8) =~= c.subrange(4, 8));
    assert(b.subrange(8, 8 + len) =~= c.subrange(8, 8 + len));
    assert(b.subrange(8 + len, 12 + len) =~= c.subrange(8 + len, 12 + len));
}

/// Valid chunks, written out one after another, decode to themselves.
proof fn lemma_parse_chunks_of_bytes(s: Seq<ChunkModel>)
    requires
        valid_chunks(s),
    ensures
        parse_chunks(chunks_bytes(s)) == Ok::<Seq<ChunkModel>, PngError>(s),
    decreases s.len(),
{
    if s.len() > 0 {
        let m = s[0];
        let tail = s.drop_first();
        let b = chunks_bytes(s);
        assert(valid_chunks(tail)) by {
            assert forall|i: int| 0 <= i < tail.len() implies valid_type_code(
                (#[trigger] tail[i]).chunk_type,
            ) && tail[i].data.len() <= u32::MAX by {
                assert(tail[i] == s[i + 1]);
            }
        }
        lemma_parse_chunks_of_bytes(tail);
        lemma_parse_chunk_prefix(m, chunks_bytes(tail));
        lemma_chunk_bytes_parts(m);
        assert(b == chunk_bytes(m) + chunks_bytes(tail));
        assert(b.subrange(12 + m.data.len() as int, b.len() as int) =~= chunks_bytes(tail));
        assert(b.len() >= 12);
        assert(parse_chunks(b) == prepend_chunks(
            seq![m],
            parse_chunks(b.subrange(12 + m.data.len() as int, b.len() as int)),
        ));
        assert(seq![m] + tail =~= s);
    } else {
        assert(chunks_bytes(s) =~= Seq::<u8>::empty());
        assert(s =~= Seq::<ChunkModel>::empty());
    }
}

/// A container of valid chunks, written out and read back, holds the same
/// chunks in the same order.
pub proof fn lemma_png_parse_of_bytes(s: Seq<ChunkModel>)
    requires
        valid_chunks(s),
    ensures
        parse_png(png_bytes(s)) == Ok::<Seq<ChunkModel>, PngError>(s),
{
    let b = png_bytes(s);
    assert(b.subrange(0, 8) =~= png_signature());
    assert(b.subrange(8, b.len() as int) =~= chunks_bytes(s));
    lemma_parse_chunks_of_bytes(s);
}

/// The chunks decoded from bytes are valid.
proof fn lemma_parsed_chunks_valid(b: Seq<u8>)
    requires
        parse_chunks(b) is Ok,
    ensures
        valid_chunks(parse_chunks(b)->Ok_0),
    decreases b.len(),
{
    if b.len() > 0 {
        reveal(parse_chunk);
        let m = parse_chunk(b)->Ok_0;
        let rest = b.subrange(12 + m.data.len() as int, b.len() as int);
        lemma_parsed_chunks_valid(rest);
        let s = parse_chunks(rest)->Ok_0;
        let all = seq![m] + s;
        assert(parse_chunks(b)->Ok_0 == all);
        assert forall|i: int| 0 <= i < all.len() implies valid_type_code(
            (#[trigger] all[i]).chunk_type,
        ) && all[i].data.len() <= u32::MAX by {
            if i > 0 {
                assert(all[i] == s[i - 1]);
            }
        }
    }
}

/// Filtering keeps chunks valid.
proof fn lemma_filter_valid(s: Seq<ChunkModel>, p: spec_fn(ChunkModel) -> bool)
    requires
        valid_chunks(s),
    ensures
        valid_chunks(s.filter(p)),
    decreases s.len(),
{
    if s.len() > 0 {
        let init = s.drop_last();
        assert(valid_chunks(init)) by {
            assert forall|i: int| 0 <= i < init.len() implies valid_type_code(
                (#[trigger] init[i]).chunk_type,
            ) && init[i].data.len() <= u32::MAX by {
                assert(init[i] == s[i]);
            }
        }
        lemma_filter_valid(init, p);
        assert(init.push(s.last()) =~= s);
        init.lemma_filter_push(s.last(), p);
        let f = init.filter(p);
        if p(s.last()) {
            assert forall|i: int| 0 <= i < f.push(s.last()).len() implies valid_type_code(
                (#[trigger] f.push(s.last())[i]).chunk_type,
            ) && f.push(s.last())[i].data.len() <= u32::MAX by {
                if i < f.len() {
                    assert(f.push(s.last())[i] == f[i]);
                }
            }
        }
    }
}

/// Encoding a text message under a non-critical type code into a container
/// adds one chunk at its end, and decoding under that code then gives the
/// messages found before, followed by this one.
pub proof fn lemma_encode_then_decode(b: Seq<u8>, code_text: Seq<u8>, message: Seq<char>)
    requires
        parse_png(b) is Ok,
        type_code_of_text(code_text) is Some,
        !is_upper(type_code_of_text(code_text)->Some_0[0]),
        encode_utf8(message).len() <= u32::MAX,
    ensures
        ({
            let s = parse_png(b)->Ok_0;
            let t = type_code_of_text(code_text)->Some_0;
            let out = encoded(b, code_text, encode_utf8(message));
            &&& out is Ok
            &&& parse_png(out->Ok_0) == Ok::<Seq<ChunkModel>, PngError>(
                s.push(ChunkModel { chunk_type: t, data: encode_utf8(message) }),
            )
            &&& messages(parse_png(out->Ok_0)->Ok_0, t) == messages(s, t).push(message)
        }),
{
    let s = parse_png(b)->Ok_0;
    let t = type_code_of_text(code_text)->Some_0;
    let m = ChunkModel { chunk_type: t, data: encode_utf8(message) };
    lemma_parsed_chunks_valid(b.subrange(8, b.len() as int));
    let s2 = s.push(m);
    assert(valid_chunks(s2)) by {
        assert forall|i: int| 0 <= i < s2.len() implies valid_type_code(
            (#[trigger] s2[i]).chunk_type,
        ) && s2[i].data.len() <= u32::MAX by {
            if i < s.len() {
                assert(s2[i] == s[i]);
            }
        }
    }
    lemma_png_parse_of_bytes(s2);
    encode_utf8_valid_utf8(message);
    encode_utf8_decode_utf8(message);
    let p = carries_message(t);
    assert(p(m));
    s.lemma_filter_push(m, p);
    let f = |c: ChunkModel| decode_utf8(c.data);
    assert(s.filter(p).push(m).map_values(f) =~= s.filter(p).map_values(f).push(f(m)));
}

/// Removing every chunk of a type code from a container leaves the other
/// chunks in their order, and decoding under that code then gives nothing.
pub proof fn lemma_remove_then_decode(b: Seq<u8>, code_text: Seq<u8>)
    requires
        parse_png(b) is Ok,
        type_code_of_text(code_text) is Some,
    ensures
        ({
            let s = parse_png(b)->Ok_0;
            let t = type_code_of_text(code_text)->Some_0;
            let out = removed(b, code_text);
            &&& out is Ok
            &&& parse_png(out->Ok_0) == Ok::<Seq<ChunkModel>, PngError>(s.filter(keeps(t)))
            &&& messages(parse_png(out->Ok_0)->Ok_0, t) == Seq::<Seq<char>>::empty()
        }),
{
    let s = parse_png(b)->Ok_0;
    let t = type_code_of_text(code_text)->Some_0;
    let kept = s.filter(keeps(t));
    lemma_parsed_chunks_valid(b.subrange(8, b.len() as int));
    lemma_filter_valid(s, keeps(t));
    lemma_png_parse_of_bytes(kept);
    let p = carries_message(t);
    assert(kept.all(|x: ChunkModel| !p(x))) by {
        assert forall|i: int| 0 <= i < kept.len() implies !p(#[trigger] kept[i]) by {
            s.lemma_filter_pred(keeps(t), i);
        }
    }
    kept.lemma_all_neg_filter_empty(p);
    assert(messages(kept, t) =~= Seq::<Seq<char>>::empty());
}

/// Once every chunk of a type code is removed, none of that type is left,
/// so removing that type code again finds nothing (and, by the contract of
/// `Png::remove_chunk`, fails with `NotFound` and changes nothing).
pub proof fn lemma_removed_type_is_absent(s: Seq<ChunkModel>, t: Seq<u8>)
    ensures
        !has_type(s.filter(keeps(t)), t),
{
    let kept = s.filter(keeps(t));
    assert forall|i: int| 0 <= i < kept.len() implies (#[trigger] kept[i]).chunk_type != t by {
        s.lemma_filter_pred(keeps(t), i);
    }
}

} // verus!
