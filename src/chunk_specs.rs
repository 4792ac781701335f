use vstd::prelude::*;
use vstd::utf8::{decode_utf8, valid_utf8};
use crate::bytes::{push_be_u32, push_bytes};
use crate::chunk::{ChunkModel, chunk_bytes, chunk_crc};
use crate::chunk_type::ChunkType;
use crate::error::PngError;
use crate::ihdr::IHDR;

verus! {

/// What every kind of chunk offers: its length, type code, payload and
/// checksum, its payload as text, and its wire form.
pub trait Chunk {
    /// The type code and payload of the chunk.
    spec fn model(&self) -> ChunkModel;

    /// The length of the payload.
    fn length(&self) -> (r: u32)
        ensures
            r == self.model().data.len(),
    ;

    /// The type code.
    fn chunk_type(&self) -> (r: &ChunkType)
        ensures
            r@ == self.model().chunk_type,
    ;

    /// The payload.
    fn data(&self) -> (r: &[u8])
        ensures
            r@ == self.model().data,
    ;

    /// The checksum over type code and payload.
    fn crc(&self) -> (r: u32)
        ensures
            r == chunk_crc(self.model()),
    ;

    /// The payload as text; fails if it is not valid UTF-8.
    fn data_as_string(&self) -> (r: Result<String, PngError>)
        ensures
            r is Ok <==> valid_utf8(self.model().data),
            r is Ok ==> r->Ok_0@ == decode_utf8(self.model().data),
            r is Err ==> r->Err_0 == PngError::NotUtf8,
    ;

    /// The wire form: length, type code, payload and checksum.
    fn as_bytes(&self) -> (r: Vec<u8>)
        ensures
            r@ == chunk_bytes(self.model()),
    {
        let mut v: Vec<u8> = Vec::new();
        push_be_u32(&mut v, self.length());
        let code = self.chunk_type().bytes();
        push_bytes(&mut v, code.as_slice());
        push_bytes(&mut v, self.data());
        push_be_u32(&mut v, self.crc());
        v
    }
}

impl Chunk for crate::chunk::Chunk {
    open spec fn model(&self) -> ChunkModel {
        self@
    }

    fn length(&self) -> (r: u32) {
        crate::chunk::Chunk::length(self)
    }

    fn chunk_type(&self) -> (r: &ChunkType) {
        crate::chunk::Chunk::chunk_type(self)
    }

    fn data(&self) -> (r: &[u8]) {
        crate::chunk::Chunk::data(self)
    }

    fn crc(&self) -> (r: u32) {
        crate::chunk::Chunk::crc(self)
    }

    fn data_as_string(&self) -> (r: Result<String, PngError>) {
        crate::chunk::Chunk::data_as_string(self)
    }
}

impl Chunk for IHDR {
    open spec fn model(&self) -> ChunkModel {
        self@
    }

    fn length(&self) -> (r: u32) {
        IHDR::length(self)
    }

    fn chunk_type(&self) -> (r: &ChunkType) {
        IHDR::chunk_type(self)
    }

    fn data(&self) -> (r: &[u8]) {
        IHDR::data(self)
    }

    fn crc(&self) -> (r: u32) {
        IHDR::crc(self)
    }

    fn data_as_string(&self) -> (r: Result<String, PngError>) {
        IHDR::data_as_string(self)
    }
}

} // verus!
