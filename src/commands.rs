use vstd::prelude::*;
use vstd::slice::slice_to_vec;
use vstd::string::StringSliceAdditionalSpecFns;
use vstd::utf8::{decode_utf8, valid_utf8};
use crate::chunk::{Chunk, ChunkModel};
use crate::chunk_type::{ChunkType, is_upper, type_code_of_text};
use crate::error::PngError;
use crate::png::{Png, has_type, is_first_of_type, models, parse_png, png_bytes};

verus! {

/// Holds of the chunks that do not have the type code `t`.
pub open spec fn keeps(t: Seq<u8>) -> spec_fn(ChunkModel) -> bool {
    |c: ChunkModel| c.chunk_type != t
}

/// Holds of the chunks that carry a message under the type code `t`:
/// of type `t`, not critical, with a payload that is valid UTF-8.
pub open spec fn carries_message(t: Seq<u8>) -> spec_fn(ChunkModel) -> bool {
    |c: ChunkModel| c.chunk_type == t && !is_upper(c.chunk_type[0]) && valid_utf8(c.data)
}

/// The messages under the type code `t`, in chunk order.
pub open spec fn messages(s: Seq<ChunkModel>, t: Seq<u8>) -> Seq<Seq<char>> {
    s.filter(carries_message(t)).map_values(|c: ChunkModel| decode_utf8(c.data))
}

/// What encoding a message gives: the container with a chunk of the given
/// type code and the message's bytes added at the end.
pub open spec fn encoded(b: Seq<u8>, code_text: Seq<u8>, message: Seq<u8>) -> Result<
    Seq<u8>,
    PngError,
> {
    match parse_png(b) {
        Err(e) => Err(e),
        Ok(s) => match type_code_of_text(code_text) {
            None => Err(PngError::InvalidTypeCode),
            Some(t) => Ok(png_bytes(s.push(ChunkModel { chunk_type: t, data: message }))),
        },
    }
}

/// What removing a type code gives: the container without its chunks of
/// that type.
pub open spec fn removed(b: Seq<u8>, code_text: Seq<u8>) -> Result<Seq<u8>, PngError> {
    match parse_png(b) {
        Err(e) => Err(e),
        Ok(s) => match type_code_of_text(code_text) {
            None => Err(PngError::InvalidTypeCode),
            Some(t) => Ok(png_bytes(s.filter(keeps(t)))),
        },
    }
}

/// Removing an element that a filter drops does not change the filter.
proof fn lemma_filter_remove(s: Seq<ChunkModel>, i: int, p: spec_fn(ChunkModel) -> bool)
    requires
        0 <= i < s.len(),
        !p(s[i]),
    ensures
        s.remove(i).filter(p) == s.filter(p),
{
    let a = s.subrange(0, i);
    let b = s.subrange(i + 1, s.len() as int);
    assert(s =~= a.push(s[i]) + b);
    assert(s.remove(i) =~= a + b);
    a.lemma_filter_push(s[i], p);
    Seq::filter_distributes_over_add(a.push(s[i]), b, p);
    Seq::filter_distributes_over_add(a, b, p);
}

/// A filter that every element passes changes nothing.
proof fn lemma_filter_all(s: Seq<ChunkModel>, p: spec_fn(ChunkModel) -> bool)
    requires
        forall|i: int| 0 <= i < s.len() ==> p(#[trigger] s[i]),
    ensures
        s.filter(p) == s,
    decreases s.len(),
{
    if s.len() > 0 {
        let init = s.drop_last();
        lemma_filter_all(init, p);
        assert(init.push(s.last()) =~= s);
        init.lemma_filter_push(s.last(), p);
    }
}

/// Decodes a container, adds at its end a chunk of the given type code that
/// holds the message's bytes, and encodes it again.
pub fn encode_message(png_bytes: &[u8], chunk_type: &str, message: &str) -> (r: Result<
    Vec<u8>,
    PngError,
>)
    requires
        message.spec_bytes().len() <= u32::MAX,
    ensures
        match encoded(png_bytes@, chunk_type.spec_bytes(), message.spec_bytes()) {
            Ok(b) => r is Ok && r->Ok_0@ == b,
            Err(e) => r == Err::<Vec<u8>, PngError>(e),
        },
{
    let mut png = match Png::parse(png_bytes) {
        Ok(p) => p,
        Err(e) => return Err(e),
    };
    let t = match ChunkType::from_text(chunk_type) {
        Ok(t) => t,
        Err(e) => return Err(e),
    };
    let data = slice_to_vec(message.as_bytes());
    png.append_chunk(Chunk::new(t, data));
    Ok(png.as_bytes())
}

/// Decodes a container and returns, in order, the text of every chunk of the
/// given type code that is not critical and holds valid UTF-8.
pub fn decode_message(png_bytes: &[u8], chunk_type: &str) -> (r: Result<Vec<String>, PngError>)
    ensures
        match parse_png(png_bytes@) {
            Err(e) => r == Err::<Vec<String>, PngError>(e),
            Ok(s) => match type_code_of_text(chunk_type.spec_bytes()) {
                None => r == Err::<Vec<String>, PngError>(PngError::InvalidTypeCode),
                Some(t) => r is Ok && r->Ok_0@.map_values(|x: String| x@) == messages(s, t),
            },
        },
{
    let png = match Png::parse(png_bytes) {
        Ok(p) => p,
        Err(e) => return Err(e),
    };
    let t = match ChunkType::from_text(chunk_type) {
        Ok(t) => t,
        Err(e) => return Err(e),
    };
    let chunks = png.chunks();
    let ghost s = png@;
    let ghost p = carries_message(t@);
    let mut out: Vec<String> = Vec::new();
    let mut i: usize = 0;
    while i < chunks.len()
        invariant
            i <= chunks@.len(),
            models(chunks@) == s,
            p == carries_message(t@),
            out@.map_values(|x: String| x@) == messages(s.take(i as int), t@),
        decreases chunks@.len() - i,
    {
        let c = &chunks[i];
        assert(c@ == s[i as int]);
        assert(s.take(i as int).push(s[i as int]) =~= s.take(i + 1));
        proof {
            s.take(i as int).lemma_filter_push(s[i as int], p);
        }
        let ghost before = out@;
        if !c.chunk_type().is_critical() && c.chunk_type().equals(&t) {
            if let Ok(text) = c.data_as_string() {
                out.push(text);
                assert(out@.map_values(|x: String| x@) =~= before.map_values(|x: String| x@).push(
                    decode_utf8(s[i as int].data),
                ));
                assert(messages(s.take(i + 1), t@) =~= messages(s.take(i as int), t@).push(
                    decode_utf8(s[i as int].data),
                ));
            }
        }
        i = i + 1;
    }
    assert(s.take(i as int) =~= s);
    Ok(out)
}

/// Decodes a container, removes its chunks of the given type code one by
/// one until none is left, and encodes it again.
pub fn remove_all_matching(png_bytes: &[u8], chunk_type: &str) -> (r: Result<Vec<u8>, PngError>)
    ensures
        match removed(png_bytes@, chunk_type.spec_bytes()) {
            Ok(b) => r is Ok && r->Ok_0@ == b,
            Err(e) => r == Err::<Vec<u8>, PngError>(e),
        },
{
    let mut png = match Png::parse(png_bytes) {
        Ok(p) => p,
        Err(e) => return Err(e),
    };
    let t = match ChunkType::from_text(chunk_type) {
        Ok(t) => t,
        Err(e) => return Err(e),
    };
    let ghost s = png@;
    let ghost p = keeps(t@);
    loop
        invariant
            p == keeps(t@),
            png@.filter(p) == s.filter(p),
        ensures
            !has_type(png@, t@),
            png@.filter(p) == s.filter(p),
        decreases png@.len(),
    {
        let ghost before = png@;
        match png.remove_chunk(&t) {
            Ok(c) => {
                proof {
                    let i = choose|i: int|
                        is_first_of_type(before, t@, i) && png@ == before.remove(i) && c@
                            == #[trigger] before[i];
                    lemma_filter_remove(before, i, p);
                }
            },
            Err(_) => {
                break ;
            },
        }
    }
    proof {
        assert forall|i: int| 0 <= i < png@.len() implies p(#[trigger] png@[i]) by {
            if !p(png@[i]) {
                assert(has_type(png@, t@));
            }
        }
        lemma_filter_all(png@, p);
    }
    Ok(png.as_bytes())
}

} // verus!
