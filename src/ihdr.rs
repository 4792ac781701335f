use vstd::prelude::*;
use crate::bytes::{be_value, read_be_u32};
use crate::checksum::crc32_of;
use crate::text::string_from_utf8;
use vstd::slice::slice_to_vec;
use vstd::utf8::{decode_utf8, valid_utf8};
use crate::chunk::{Chunk, ChunkModel, chunk_crc};
use crate::chunk_type::ChunkType;
use crate::error::PngError;

verus! {

/// The type code of the image header chunk: `IHDR`.
pub open spec fn ihdr_code() -> Seq<u8> {
    seq![73u8, 72u8, 68u8, 82u8]
}

/// The bit depths that each color type allows.
pub open spec fn valid_color_depth(color_type: u8, bit_depth: u8) -> bool {
    if color_type == 0 {
        bit_depth == 1 || bit_depth == 2 || bit_depth == 4 || bit_depth == 8 || bit_depth == 16
    } else if color_type == 3 {
        bit_depth == 1 || bit_depth == 2 || bit_depth == 4 || bit_depth == 8
    } else if color_type == 2 || color_type == 4 || color_type == 6 {
        bit_depth == 8 || bit_depth == 16
    } else {
        false
    }
}

/// Whether a chunk can be read as an image header, and if not, why.
pub open spec fn ihdr_check(m: ChunkModel) -> Result<(), PngError> {
    if m.chunk_type != ihdr_code() {
        Err(PngError::WrongTypeCode)
    } else if m.data.len() != 13 {
        Err(PngError::WrongLength)
    } else if !valid_color_depth(m.data[9], m.data[8]) {
        Err(PngError::InvalidColorBitDepthCombination)
    } else {
        Ok(())
    }
}

/// The image header: a chunk of type `IHDR` whose 13-byte payload is read
/// as width, height, bit depth, color type, compression, filter and
/// interlace methods, with a bit depth that its color type allows.
#[derive(Debug)]
pub struct IHDR {
    length: u32,
    chunk_type: ChunkType,
    data: Vec<u8>,
    crc: u32,
}

impl View for IHDR {
    type V = ChunkModel;

    closed spec fn view(&self) -> ChunkModel {
        ChunkModel { chunk_type: self.chunk_type@, data: self.data@ }
    }
}

impl IHDR {
    #[verifier::type_invariant]
    spec fn inv(self) -> bool {
        &&& self.length == self.data@.len()
        &&& self.crc == crc32_of(self.chunk_type@ + self.data@)
        &&& ihdr_check(self@) is Ok
    }

    /// Reads a chunk as an image header. Fails with `WrongTypeCode` unless
    /// its type is `IHDR`, then with `WrongLength` unless its payload has 13
    /// bytes, then with `InvalidColorBitDepthCombination` unless the bit
    /// depth is allowed for the color type.
    pub fn from_chunk(chunk: &Chunk) -> (r: Result<IHDR, PngError>)
        ensures
            match ihdr_check(chunk@) {
                Ok(_) => r is Ok && r->Ok_0@ == chunk@,
                Err(e) => r == Err::<IHDR, PngError>(e),
            },
    {
        let chunk_type: ChunkType = *chunk.chunk_type();
        let code = chunk_type.bytes();
        if !(code[0] == 73 && code[1] == 72 && code[2] == 68 && code[3] == 82) {
            assert(chunk@.chunk_type[0] != 73 || chunk@.chunk_type[1] != 72 || chunk@.chunk_type[2]
                != 68 || chunk@.chunk_type[3] != 82);
            return Err(PngError::WrongTypeCode);
        }
        assert(chunk@.chunk_type =~= ihdr_code());
        let data = chunk.data();
        if data.len() != 13 {
            return Err(PngError::WrongLength);
        }
        if !Self::is_valid_combination(data[9], data[8]) {
            return Err(PngError::InvalidColorBitDepthCombination);
        }
        let mut v: Vec<u8> = Vec::new();
        let mut i: usize = 0;
        while i < 13
            invariant
                i <= 13,
                data@.len() == 13,
                v@ == data@.subrange(0, i as int),
            decreases 13 - i,
        {
            v.push(data[i]);
            i = i + 1;
            assert(v@ =~= data@.subrange(0, i as int));
        }
        assert(v@ =~= data@);
        Ok(IHDR { length: 13, chunk_type, data: v, crc: chunk.crc() })
    }

    /// Whether the bit depth is allowed for the color type.
    pub fn is_valid_combination(color_type: u8, bit_depth: u8) -> (r: bool)
        ensures
            r == valid_color_depth(color_type, bit_depth),
    {
        match color_type {
            0 => bit_depth == 1 || bit_depth == 2 || bit_depth == 4 || bit_depth == 8 || bit_depth == 16,
            2 | 4 | 6 => bit_depth == 8 || bit_depth == 16,
            3 => bit_depth == 1 || bit_depth == 2 || bit_depth == 4 || bit_depth == 8,
            _ => false,
        }
    }

    /// The image width: the big-endian number in payload bytes 0 to 3.
    pub fn width(&self) -> (r: u32)
        ensures
            r == be_value(self@.data.subrange(0, 4)),
    {
        proof {
            use_type_invariant(self);
        }
        read_be_u32(self.data.as_slice(), 0)
    }

    /// The image height: the big-endian number in payload bytes 4 to 7.
    pub fn height(&self) -> (r: u32)
        ensures
            r == be_value(self@.data.subrange(4, 8)),
    {
        proof {
            use_type_invariant(self);
        }
        read_be_u32(self.data.as_slice(), 4)
    }

    /// The bit depth: payload byte 8.
    pub fn bit_depth(&self) -> (r: u8)
        ensures
            r == self@.data[8],
            valid_color_depth(self@.data[9], r),
    {
        proof {
            use_type_invariant(self);
        }
        self.data[8]
    }

    /// The color type: payload byte 9.
    pub fn color_type(&self) -> (r: u8)
        ensures
            r == self@.data[9],
    {
        proof {
            use_type_invariant(self);
        }
        self.data[9]
    }

    /// The compression method: payload byte 10.
    pub fn compression_method(&self) -> (r: u8)
        ensures
            r == self@.data[10],
    {
        proof {
            use_type_invariant(self);
        }
        self.data[10]
    }

    /// The filter method: payload byte 11.
    pub fn filter_method(&self) -> (r: u8)
        ensures
            r == self@.data[11],
    {
        proof {
            use_type_invariant(self);
        }
        self.data[11]
    }

    /// The interlace method: payload byte 12.
    pub fn interlace_method(&self) -> (r: u8)
        ensures
            r == self@.data[12],
    {
        proof {
            use_type_invariant(self);
        }
        self.data[12]
    }

    /// The length of the payload: always 13.
    pub fn length(&self) -> (r: u32)
        ensures
            r == self@.data.len(),
            r == 13,
    {
        proof {
            use_type_invariant(self);
        }
        self.length
    }

    /// The type code: always `IHDR`.
    pub fn chunk_type(&self) -> (r: &ChunkType)
        ensures
            r@ == self@.chunk_type,
            r@ == ihdr_code(),
    {
        proof {
            use_type_invariant(self);
        }
        &self.chunk_type
    }

    /// The 13-byte payload.
    pub fn data(&self) -> (r: &[u8])
        ensures
            r@ == self@.data,
    {
        self.data.as_slice()
    }

    /// The payload as text; fails if it is not valid UTF-8.
    pub fn data_as_string(&self) -> (r: Result<String, PngError>)
        ensures
            r is Ok <==> valid_utf8(self@.data),
            r is Ok ==> r->Ok_0@ == decode_utf8(self@.data),
            r is Err ==> r->Err_0 == PngError::NotUtf8,
    {
        match string_from_utf8(slice_to_vec(self.data.as_slice())) {
            Some(s) => Ok(s),
            None => Err(PngError::NotUtf8),
        }
    }

    /// The checksum over type code and payload.
    pub fn crc(&self) -> (r: u32)
        ensures
            r == chunk_crc(self@),
    {
        proof {
            use_type_invariant(self);
        }
        self.crc
    }
}

} // verus!
