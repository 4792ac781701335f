use vstd::prelude::*;
use vstd::slice::slice_subrange;
use crate::bytes::push_bytes;
use crate::chunk::{Chunk, ChunkModel, chunk_bytes, parse_chunk};
use crate::chunk_type::ChunkType;
use crate::error::PngError;

verus! {

/// The eight bytes that open every container.
pub open spec fn png_signature() -> Seq<u8> {
    seq![137u8, 80u8, 78u8, 71u8, 13u8, 10u8, 26u8, 10u8]
}

/// The wire form of a sequence of chunks: their wire forms, one after another.
pub open spec fn chunks_bytes(s: Seq<ChunkModel>) -> Seq<u8>
    decreases s.len(),
{
    if s.len() == 0 {
        seq![]
    } else {
        chunk_bytes(s[0]) + chunks_bytes(s.drop_first())
    }
}

/// The wire form of a container: the signature, then its chunks.
pub open spec fn png_bytes(s: Seq<ChunkModel>) -> Seq<u8> {
    png_signature() + chunks_bytes(s)
}

/// `acc` followed by the chunks of `r`, or the error of `r`.
pub open spec fn prepend_chunks(
    acc: Seq<ChunkModel>,
    r: Result<Seq<ChunkModel>, PngError>,
) -> Result<Seq<ChunkModel>, PngError> {
    match r {
        Ok(s) => Ok(acc + s),
        Err(e) => Err(e),
    }
}

/// Decodes chunks one after another until `b` is used up; the first chunk
/// that fails to decode fails the whole.
pub open spec fn parse_chunks(b: Seq<u8>) -> Result<Seq<ChunkModel>, PngError>
    decreases b.len(),
{
    if b.len() == 0 {
        Ok(seq![])
    } else {
        match parse_chunk(b) {
            Err(e) => Err(e),
            Ok(m) => if 12 + m.data.len() <= b.len() {
                prepend_chunks(seq![m], parse_chunks(b.subrange(12 + m.data.len() as int, b.len() as int)))
            } else {
                Err(PngError::TruncatedInput)
            },
        }
    }
}

/// Decodes a whole container: the signature, then its chunks.
pub open spec fn parse_png(b: Seq<u8>) -> Result<Seq<ChunkModel>, PngError> {
    if b.len() < 8 || b.subrange(0, 8) != png_signature() {
        Err(PngError::BadSignature)
    } else {
        parse_chunks(b.subrange(8, b.len() as int))
    }
}

/// Whether some chunk of `s` has the type code `t`.
pub open spec fn has_type(s: Seq<ChunkModel>, t: Seq<u8>) -> bool {
    exists|i: int| 0 <= i < s.len() && (#[trigger] s[i]).chunk_type == t
}

/// `i` is the position of the first chunk of `s` with type code `t`.
pub open spec fn is_first_of_type(s: Seq<ChunkModel>, t: Seq<u8>, i: int) -> bool {
    &&& 0 <= i < s.len()
    &&& s[i].chunk_type == t
    &&& forall|j: int| 0 <= j < i ==> (#[trigger] s[j]).chunk_type != t
}

/// The models of a sequence of chunks.
pub open spec fn models(v: Seq<Chunk>) -> Seq<ChunkModel> {
    v.map_values(|c: Chunk| c@)
}

/// Appending a chunk appends its wire form.
pub proof fn lemma_chunks_bytes_push(s: Seq<ChunkModel>, c: ChunkModel)
    ensures
        chunks_bytes(s.push(c)) == chunks_bytes(s) + chunk_bytes(c),
    decreases s.len(),
{
    if s.len() == 0 {
        let t = s.push(c);
        assert(t.drop_first() =~= Seq::<ChunkModel>::empty());
        assert(t[0] == c);
        assert(chunks_bytes(t) == chunk_bytes(c) + chunks_bytes(t.drop_first()));
        assert(chunks_bytes(t) =~= chunks_bytes(s) + chunk_bytes(c));
    } else {
        let t = s.push(c);
        assert(t.drop_first() =~= s.drop_first().push(c));
        assert(t[0] == s[0]);
        lemma_chunks_bytes_push(s.drop_first(), c);
        assert(chunks_bytes(t) == chunk_bytes(s[0]) + chunks_bytes(t.drop_first()));
        assert(chunks_bytes(s) == chunk_bytes(s[0]) + chunks_bytes(s.drop_first()));
        assert(chunks_bytes(t) =~= chunks_bytes(s) + chunk_bytes(c));
    }
}

/// A container: the signature and an ordered sequence of chunks, in file
/// order. Chunks are added at the end and removed by type code.
#[derive(Debug)]
pub struct Png {
    chunks: Vec<Chunk>,
}

impl View for Png {
    type V = Seq<ChunkModel>;

    closed spec fn view(&self) -> Seq<ChunkModel> {
        models(self.chunks@)
    }
}

impl Png {
    /// The eight-byte signature.
    pub fn signature() -> (r: [u8; 8])
        ensures
            r@ == png_signature(),
    {
        let r: [u8; 8] = [137, 80, 78, 71, 13, 10, 26, 10];
        assert(r@ =~= png_signature());
        r
    }

    /// A container that holds the given chunks, in that order.
    pub fn from_chunks(chunks: Vec<Chunk>) -> (r: Png)
        ensures
            r@ == models(chunks@),
    {
        Png { chunks }
    }

    /// Decodes a whole container: the signature, then chunks until the
    /// bytes are used up. Any failure fails the whole.
    pub fn parse(bytes: &[u8]) -> (r: Result<Png, PngError>)
        ensures
            match r {
                Ok(p) => parse_png(bytes@) == Ok::<Seq<ChunkModel>, PngError>(p@),
                Err(e) => parse_png(bytes@) == Err::<Seq<ChunkModel>, PngError>(e),
            },
    {
        let n = bytes.len();
        if n < 8 {
            return Err(PngError::BadSignature);
        }
        let sig = Png::signature();
        let mut i: usize = 0;
        while i < 8
            invariant
                i <= 8 <= n == bytes@.len(),
                sig@ == png_signature(),
                forall|j: int| 0 <= j < i ==> bytes@[j] == #[trigger] sig@[j],
            decreases 8 - i,
        {
            if bytes[i] != sig[i] {
                assert(bytes@.subrange(0, 8)[i as int] != png_signature()[i as int]);
                return Err(PngError::BadSignature);
            }
            i = i + 1;
        }
        assert(bytes@.subrange(0, 8) =~= png_signature());
        let ghost body = bytes@.subrange(8, n as int);
        let mut chunks: Vec<Chunk> = Vec::new();
        let mut pos: usize = 8;
        assert(prepend_chunks(models(chunks@), parse_chunks(body)) == parse_chunks(body)) by {
            match parse_chunks(body) {
                Ok(s) => assert(models(chunks@) + s =~= s),
                Err(e) => {},
            }
        }
        assert(bytes@.subrange(pos as int, n as int) == body);
        while pos < n
            invariant
                8 <= pos <= n == bytes@.len(),
                bytes@.subrange(0, 8) == png_signature(),
                body == bytes@.subrange(8, n as int),
                parse_chunks(body) == prepend_chunks(
                    models(chunks@),
                    parse_chunks(bytes@.subrange(pos as int, n as int)),
                ),
            decreases n - pos,
        {
            let rest = slice_subrange(bytes, pos, n);
            let c = match Chunk::parse(rest) {
                Ok(c) => c,
                Err(e) => {
                    return Err(e);
                },
            };
            let len = c.length() as usize;
            let ghost m = c@;
            let ghost next = bytes@.subrange((pos + 12 + len) as int, n as int);
            assert(rest@.subrange(12 + m.data.len() as int, rest@.len() as int) =~= next);
            let ghost acc = models(chunks@);
            chunks.push(c);
            assert(models(chunks@) =~= acc.push(m));
            assert(parse_chunks(body) == prepend_chunks(models(chunks@), parse_chunks(next))) by {
                match parse_chunks(next) {
                    Ok(s) => assert(acc + (seq![m] + s) =~= acc.push(m) + s),
                    Err(e) => {},
                }
            }
            pos = pos + 12 + len;
        }
        assert(bytes@.subrange(pos as int, n as int) =~= Seq::<u8>::empty());
        assert(models(chunks@) + Seq::<ChunkModel>::empty() =~= models(chunks@));
        Ok(Png { chunks })
    }

    /// Adds a chunk at the end.
    pub fn append_chunk(&mut self, chunk: Chunk)
        ensures
            final(self)@ == old(self)@.push(chunk@),
    {
        self.chunks.push(chunk);
        assert(models(self.chunks@) =~= models(old(self).chunks@).push(chunk@));
    }

    /// Removes and returns the first chunk with the given type code; fails
    /// with `NotFound`, changing nothing, if there is none.
    pub fn remove_chunk(&mut self, chunk_type: &ChunkType) -> (r: Result<Chunk, PngError>)
        ensures
            r is Err <==> !has_type(old(self)@, chunk_type@),
            r is Err ==> r->Err_0 == PngError::NotFound && final(self)@ == old(self)@,
            r is Ok ==> exists|i: int|
                is_first_of_type(old(self)@, chunk_type@, i) && final(self)@ == old(self)@.remove(i)
                    && r->Ok_0@ == #[trigger] old(self)@[i],
    {
        let mut i: usize = 0;
        while i < self.chunks.len()
            invariant
                i <= self.chunks@.len(),
                self@ == old(self)@,
                self.chunks@.len() == old(self)@.len(),
                forall|j: int| 0 <= j < i ==> (#[trigger] old(self)@[j]).chunk_type != chunk_type@,
            decreases self.chunks@.len() - i,
        {
            if self.chunks[i].chunk_type().equals(chunk_type) {
                let ghost before = self@;
                assert(before[i as int] == self.chunks@[i as int]@);
                let c = self.chunks.remove(i);
                assert(self@ =~= before.remove(i as int));
                assert(is_first_of_type(old(self)@, chunk_type@, i as int));
                return Ok(c);
            }
            assert(old(self)@[i as int] == self.chunks@[i as int]@);
            i = i + 1;
        }
        Err(PngError::NotFound)
    }

    /// The chunks, in order.
    pub fn chunks(&self) -> (r: &[Chunk])
        ensures
            models(r@) == self@,
    {
        self.chunks.as_slice()
    }

    /// The wire form: the signature, then each chunk's wire form in order.
    pub fn as_bytes(&self) -> (r: Vec<u8>)
        ensures
            r@ == png_bytes(self@),
    {
        let mut v: Vec<u8> = Vec::new();
        let sig = Png::signature();
        push_bytes(&mut v, sig.as_slice());
        let mut i: usize = 0;
        while i < self.chunks.len()
            invariant
                i <= self.chunks@.len(),
                v@ == png_signature() + chunks_bytes(self@.take(i as int)),
            decreases self.chunks@.len() - i,
        {
            let cb = self.chunks[i].as_bytes();
            proof {
                let s = self@;
                assert(s.take(i as int).push(s[i as int]) =~= s.take(i + 1));
                lemma_chunks_bytes_push(s.take(i as int), s[i as int]);
            }
            push_bytes(&mut v, cb.as_slice());
            assert(v@ =~= png_signature() + chunks_bytes(self@.take(i + 1)));
            i = i + 1;
        }
        assert(self@.take(i as int) =~= self@);
        v
    }
}

} // verus!
