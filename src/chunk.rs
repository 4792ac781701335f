use vstd::prelude::*;
use vstd::slice::{slice_subrange, slice_to_vec};
use vstd::utf8::{decode_utf8, valid_utf8};
use crate::bytes::{be_bytes, be_value, read_be_u32, push_be_u32, push_bytes};
use crate::checksum::{checksum, crc32_of};
use crate::chunk_type::{ChunkType, valid_type_code};
use crate::error::PngError;
use crate::text::string_from_utf8;

verus! {

/// What a chunk is: its type code and its payload. Its length and checksum
/// follow from these.
pub struct ChunkModel {
    pub chunk_type: Seq<u8>,
    pub data: Seq<u8>,
}

/// The checksum of a chunk: the CRC of its type code followed by its payload.
pub open spec fn chunk_crc(m: ChunkModel) -> u32 {
    crc32_of(m.chunk_type + m.data)
}

/// The wire form of a chunk: payload length, type code, payload, checksum.
pub open spec fn chunk_bytes(m: ChunkModel) -> Seq<u8> {
    be_bytes(m.data.len() as u32) + m.chunk_type + m.data + be_bytes(chunk_crc(m))
}

/// The payload length declared by the chunk at the front of `b`.
pub open spec fn declared_len(b: Seq<u8>) -> int {
    be_value(b.subrange(0, 4)) as int
}

/// Decodes the chunk at the front of `b`; bytes after it are not read.
#[verifier::opaque]
pub open spec fn parse_chunk(b: Seq<u8>) -> Result<ChunkModel, PngError> {
    if b.len() < 12 || b.len() < 12 + declared_len(b) {
        Err(PngError::TruncatedInput)
    } else {
        let len = declared_len(b);
        let m = ChunkModel { chunk_type: b.subrange(4, 8), data: b.subrange(8, 8 + len) };
        if chunk_crc(m) != be_value(b.subrange(8 + len, 12 + len)) {
            Err(PngError::ChecksumMismatch)
        } else if !valid_type_code(m.chunk_type) {
            Err(PngError::InvalidTypeCode)
        } else {
            Ok(m)
        }
    }
}

/// A chunk: a type code and a payload, with the payload's length and the
/// checksum over both. Built fresh (the checksum is computed) or parsed (the
/// stored checksum must match); never changed afterwards.
#[derive(Debug)]
pub struct Chunk {
    length: u32,
    chunk_type: ChunkType,
    data: Vec<u8>,
    crc: u32,
}

/// The chunk of the general kind, whose payload is not interpreted.
pub type GenericChunk = Chunk;

impl View for Chunk {
    type V = ChunkModel;

    closed spec fn view(&self) -> ChunkModel {
        ChunkModel { chunk_type: self.chunk_type@, data: self.data@ }
    }
}

/// Checks that `crc` is the checksum of `chunk_type` followed by `data`.
pub fn verify_crc(chunk_type: &ChunkType, data: &Vec<u8>, crc: u32) -> (r: Result<(), PngError>)
    ensures
        r is Ok <==> crc == crc32_of(chunk_type@ + data@),
        r is Err ==> r->Err_0 == PngError::ChecksumMismatch,
{
    let computed = type_and_data_crc(chunk_type, data.as_slice());
    check_crc(computed, crc)
}

/// Compares a computed checksum with a stored one.
pub fn check_crc(computed: u32, stored: u32) -> (r: Result<(), PngError>)
    ensures
        r is Ok <==> computed == stored,
        r is Err ==> r->Err_0 == PngError::ChecksumMismatch,
{
    if computed != stored {
        Err(PngError::ChecksumMismatch)
    } else {
        Ok(())
    }
}

fn type_and_data_crc(chunk_type: &ChunkType, data: &[u8]) -> (r: u32)
    ensures
        r == crc32_of(chunk_type@ + data@),
{
    let code = chunk_type.bytes();
    let mut v: Vec<u8> = Vec::new();
    push_bytes(&mut v, code.as_slice());
    push_bytes(&mut v, data);
    assert(v@ =~= chunk_type@ + data@);
    checksum(v.as_slice())
}

impl Chunk {
    #[verifier::type_invariant]
    spec fn inv(self) -> bool {
        &&& self.length == self.data@.len()
        &&& self.crc == crc32_of(self.chunk_type@ + self.data@)
    }

    /// A fresh chunk of the given type and payload; its checksum is computed.
    pub fn new(chunk_type: ChunkType, data: Vec<u8>) -> (r: Chunk)
        requires
            data@.len() <= u32::MAX,
        ensures
            r@ == (ChunkModel { chunk_type: chunk_type@, data: data@ }),
    {
        let crc = type_and_data_crc(&chunk_type, data.as_slice());
        Chunk { length: data.len() as u32, chunk_type, data, crc }
    }

    /// A chunk of the given type and payload with a stored checksum, which
    /// must be the one computed over them.
    pub fn from_parts(chunk_type: ChunkType, data: Vec<u8>, crc: u32) -> (r: Result<Chunk, PngError>)
        requires
            data@.len() <= u32::MAX,
        ensures
            r is Ok <==> crc == crc32_of(chunk_type@ + data@),
            r is Ok ==> r->Ok_0@ == (ChunkModel { chunk_type: chunk_type@, data: data@ }),
            r is Err ==> r->Err_0 == PngError::ChecksumMismatch,
    {
        if let Err(e) = verify_crc(&chunk_type, &data, crc) {
            return Err(e);
        }
        Ok(Chunk { length: data.len() as u32, chunk_type, data, crc })
    }

    /// Decodes the chunk at the front of `bytes`: length, type code, payload
    /// and checksum, which must match the one computed over type and payload.
    pub fn parse(bytes: &[u8]) -> (r: Result<Chunk, PngError>)
        ensures
            match r {
                Ok(c) => parse_chunk(bytes@) == Ok::<ChunkModel, PngError>(c@),
                Err(e) => parse_chunk(bytes@) == Err::<ChunkModel, PngError>(e),
            },
            r is Ok ==> 12 + r->Ok_0@.data.len() <= bytes@.len(),
    {
        reveal(parse_chunk);
        let n = bytes.len();
        if n < 12 {
            return Err(PngError::TruncatedInput);
        }
        let len: u32 = read_be_u32(bytes, 0);
        if len as usize > n - 12 {
            return Err(PngError::TruncatedInput);
        }
        let end: usize = 8 + len as usize;
        let covered = slice_subrange(bytes, 4, end);
        let computed = checksum(covered);
        let stored = read_be_u32(bytes, end);
        let ghost m = ChunkModel {
            chunk_type: bytes@.subrange(4, 8),
            data: bytes@.subrange(8, end as int),
        };
        assert(covered@ =~= m.chunk_type + m.data);
        if let Err(e) = check_crc(computed, stored) {
            return Err(e);
        }
        let code: [u8; 4] = [bytes[4], bytes[5], bytes[6], bytes[7]];
        assert(code@ =~= m.chunk_type);
        let chunk_type = match ChunkType::from_bytes(code) {
            Ok(t) => t,
            Err(e) => return Err(e),
        };
        let data = slice_to_vec(slice_subrange(bytes, 8, end));
        Ok(Chunk { length: len, chunk_type, data, crc: computed })
    }

    /// The length of the payload.
    pub fn length(&self) -> (r: u32)
        ensures
            r == self@.data.len(),
    {
        proof {
            use_type_invariant(self);
        }
        self.length
    }

    /// The type code.
    pub fn chunk_type(&self) -> (r: &ChunkType)
        ensures
            r@ == self@.chunk_type,
    {
        &self.chunk_type
    }

    /// The payload.
    pub fn data(&self) -> (r: &[u8])
        ensures
            r@ == self@.data,
    {
        self.data.as_slice()
    }

    /// The checksum over type code and payload.
    pub fn crc(&self) -> (r: u32)
        ensures
            r == chunk_crc(self@),
    {
        proof {
            use_type_invariant(self);
        }
        self.crc
    }

    /// The payload as text; fails if it is not valid UTF-8.
    pub fn data_as_string(&self) -> (r: Result<String, PngError>)
        ensures
            r is Ok <==> valid_utf8(self@.data),
            r is Ok ==> r->Ok_0@ == decode_utf8(self@.data),
            r is Err ==> r->Err_0 == PngError::NotUtf8,
    {
        match string_from_utf8(slice_to_vec(self.data.as_slice())) {
            Some(s) => Ok(s),
            None => Err(PngError::NotUtf8),
        }
    }

    /// The wire form: length, type code, payload and checksum.
    pub fn as_bytes(&self) -> (r: Vec<u8>)
        ensures
            r@ == chunk_bytes(self@),
    {
        proof {
            use_type_invariant(self);
        }
        let mut v: Vec<u8> = Vec::new();
        push_be_u32(&mut v, self.length);
        let code = self.chunk_type.bytes();
        push_bytes(&mut v, code.as_slice());
        push_bytes(&mut v, self.data.as_slice());
        push_be_u32(&mut v, self.crc);
        v
    }
}

} // verus!
