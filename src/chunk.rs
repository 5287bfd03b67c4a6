use crate::bytes::{
    be_u32, copy_range, lemma_be_u32_round_trip, push_bytes, push_u32_be, read_u32_be, u32_be_bytes,
};
use crate::chunk_type::{chunk_type_result, is_alpha, valid_type_bytes, ChunkType};
use crate::error::Error;
use crate::text::utf8_to_string;
use vstd::prelude::*;
use vstd::utf8::{decode_utf8, valid_utf8};

verus! {

/// What a chunk holds: its type, its data and its checksum. Its length is
/// the length of the data.
pub struct ChunkView {
    pub chunk_type: Seq<u8>,
    pub data: Seq<u8>,
    pub crc: u32,
}

impl ChunkView {
    /// A chunk that can exist: a valid type, and data whose length fits the
    /// four-byte length field.
    pub open spec fn wf(self) -> bool {
        valid_type_bytes(self.chunk_type) && self.data.len() <= u32::MAX
    }
}

/// The CRC-32/ISO-HDLC checksum of `data`.
pub uninterp spec fn crc32_of(data: Seq<u8>) -> u32;

/// Relies on `crc::Crc::<u32>::checksum` with the `CRC_32_ISO_HDLC`
/// parameters: the checksum depends on the bytes alone.
#[verifier::external_body]
fn crc32(data: &[u8]) -> (r: u32)
    ensures
        r == crc32_of(data@),
{
    crc::Crc::<u32>::new(&crc::CRC_32_ISO_HDLC).checksum(data)
}

/// The bytes of a chunk: length and type, data, checksum.
pub open spec fn serialize_chunk(c: ChunkView) -> Seq<u8> {
    u32_be_bytes(c.data.len() as u32) + c.chunk_type + c.data + u32_be_bytes(c.crc)
}

/// What reading a chunk from the start of `b` gives. The fields are read in
/// order (length, type, data, checksum), the checksum as it stands, and any
/// bytes after the chunk are left alone.
pub open spec fn parse_chunk(b: Seq<u8>) -> Result<ChunkView, Error> {
    if b.len() < 12 {
        Err(Error::Truncated { needed: 12, available: b.len() as usize })
    } else {
        let len = be_u32(b.subrange(0, 4)) as int;
        match chunk_type_result(b.subrange(4, 8)) {
            Err(e) => Err(e),
            Ok(t) => if b.len() < 12 + len {
                Err(Error::Truncated { needed: (12 + len) as u64, available: b.len() as usize })
            } else {
                Ok(
                    ChunkView {
                        chunk_type: t,
                        data: b.subrange(8, 8 + len),
                        crc: be_u32(b.subrange(8 + len, 12 + len)),
                    },
                )
            },
        }
    }
}

/// Reading a chunk back from its bytes, with anything after them, gives the chunk.
pub proof fn lemma_parse_serialized_chunk(c: ChunkView, rest: Seq<u8>)
    requires
        c.wf(),
    ensures
        parse_chunk(serialize_chunk(c) + rest) == Ok::<ChunkView, Error>(c),
        serialize_chunk(c).len() == 12 + c.data.len(),
        be_u32((serialize_chunk(c) + rest).subrange(0, 4)) == c.data.len(),
{
    let b = serialize_chunk(c) + rest;
    let len = c.data.len() as int;
    lemma_be_u32_round_trip(len as u32);
    lemma_be_u32_round_trip(c.crc);
    assert(b.subrange(0, 4) =~= u32_be_bytes(len as u32));
    assert(b.subrange(4, 8) =~= c.chunk_type);
    assert(b.subrange(8, 8 + len) =~= c.data);
    assert(b.subrange(8 + len, 12 + len) =~= u32_be_bytes(c.crc));
    assert(is_alpha(c.chunk_type[0]) && is_alpha(c.chunk_type[1]) && is_alpha(c.chunk_type[2])
        && is_alpha(c.chunk_type[3]));
}

/// One chunk of a PNG file: a type, data of up to `u32::MAX` bytes, and a checksum.
pub struct Chunk {
    pub(crate) chunk_type: ChunkType,
    pub(crate) len: u32,
    pub(crate) crc: u32,
    pub(crate) data: Vec<u8>,
}

impl View for Chunk {
    type V = ChunkView;

    closed spec fn view(&self) -> ChunkView {
        ChunkView { chunk_type: self.chunk_type@, data: self.data@, crc: self.crc }
    }
}

impl Chunk {
    #[verifier::type_invariant]
    pub(crate) open spec fn inv(&self) -> bool {
        self@.wf() && self.len as nat == self@.data.len()
    }

    /// Builds a chunk of the given type around `data`, with its checksum.
    pub fn new(chunk_type: ChunkType, data: Vec<u8>) -> (r: Chunk)
        requires
            data@.len() <= u32::MAX,
        ensures
            r@ == (ChunkView { chunk_type: chunk_type@, data: data@, crc: crc32_of(data@) }),
    {
        proof {
            use_type_invariant(&chunk_type);
        }
        let len = data.len() as u32;
        let crc = crc32(data.as_slice());
        Chunk { chunk_type, len, crc, data }
    }

    /// The length of the data.
    pub fn length(&self) -> (r: u32)
        ensures
            r as nat == self@.data.len(),
    {
        proof {
            use_type_invariant(self);
        }
        self.len
    }

    /// The type of the chunk.
    pub fn chunk_type(&self) -> (r: &ChunkType)
        ensures
            r@ == self@.chunk_type,
    {
        &self.chunk_type
    }

    /// The checksum of the chunk.
    pub fn crc(&self) -> (r: u32)
        ensures
            r == self@.crc,
    {
        self.crc
    }

    /// The data of the chunk.
    pub fn data(&self) -> (r: &[u8])
        ensures
            r@ == self@.data,
    {
        self.data.as_slice()
    }

    /// The bytes of the chunk as a file holds them.
    pub fn as_bytes(&self) -> (r: Vec<u8>)
        ensures
            r@ == serialize_chunk(self@),
    {
        proof {
            use_type_invariant(self);
        }
        let mut r: Vec<u8> = Vec::new();
        push_u32_be(&mut r, self.len);
        let t = self.chunk_type.bytes();
        push_bytes(&mut r, &t);
        push_bytes(&mut r, self.data.as_slice());
        push_u32_be(&mut r, self.crc);
        r
    }

    /// The data read as UTF-8 text.
    pub fn data_as_string(&self) -> (r: Result<String, Error>)
        ensures
            r is Ok <==> valid_utf8(self@.data),
            r matches Ok(s) ==> s@ == decode_utf8(self@.data),
            r matches Err(e) ==> e == Error::InvalidUtf8,
    {
        let mut copy: Vec<u8> = Vec::new();
        push_bytes(&mut copy, self.data.as_slice());
        match utf8_to_string(copy) {
            Some(s) => Ok(s),
            None => Err(Error::InvalidUtf8),
        }
    }

    /// Reads a chunk from the start of `bytes`; bytes after it are left alone.
    pub fn parse(bytes: &[u8]) -> (r: Result<Chunk, Error>)
        ensures
            match r {
                Ok(c) => parse_chunk(bytes@) == Ok::<ChunkView, Error>(c@),
                Err(e) => parse_chunk(bytes@) == Err::<ChunkView, Error>(e),
            },
    {
        assert(bytes@.subrange(0, bytes@.len() as int) =~= bytes@);
        Self::parse_at(bytes, 0)
    }

    /// Reads a chunk from `bytes`, starting at `start`.
    pub(crate) fn parse_at(bytes: &[u8], start: usize) -> (r: Result<Chunk, Error>)
        requires
            start <= bytes@.len(),
        ensures
            match r {
                Ok(c) => parse_chunk(bytes@.subrange(start as int, bytes@.len() as int)) == Ok::<
                    ChunkView,
                    Error,
                >(c@),
                Err(e) => parse_chunk(bytes@.subrange(start as int, bytes@.len() as int)) == Err::<
                    ChunkView,
                    Error,
                >(e),
            },
    {
        let ghost b = bytes@.subrange(start as int, bytes@.len() as int);
        let available = bytes.len() - start;
        if available < 12 {
            return Err(Error::Truncated { needed: 12, available });
        }
        let len = read_u32_be(bytes, start);
        assert(bytes@.subrange(start as int, start + 4) =~= b.subrange(0, 4));
        let chunk_type = match ChunkType::from_bytes(
            [bytes[start + 4], bytes[start + 5], bytes[start + 6], bytes[start + 7]],
        ) {
            Ok(t) => t,
            Err(e) => {
                assert(b.subrange(4, 8) =~= seq![b[4], b[5], b[6], b[7]]);
                return Err(e);
            },
        };
        assert(b.subrange(4, 8) =~= chunk_type@);
        if (available as u64) < 12 + (len as u64) {
            return Err(Error::Truncated { needed: 12 + (len as u64), available });
        }
        let data_start = start + 8;
        let data_end = data_start + len as usize;
        let data = copy_range(bytes, data_start, data_end);
        let crc = read_u32_be(bytes, data_end);
        assert(data@ =~= b.subrange(8, 8 + len));
        assert(bytes@.subrange(data_end as int, data_end + 4) =~= b.subrange(8 + len, 12 + len));
        Ok(Chunk { chunk_type, len, crc, data })
    }
}

impl<'a> TryFrom<&'a [u8]> for Chunk {
    type Error = Error;

    /// Reads a chunk from the start of `bytes`, as [`Chunk::parse`] does.
    fn try_from(bytes: &'a [u8]) -> (r: Result<Chunk, Error>)
        ensures
            match r {
                Ok(c) => parse_chunk(bytes@) == Ok::<ChunkView, Error>(c@),
                Err(e) => parse_chunk(bytes@) == Err::<ChunkView, Error>(e),
            },
    {
        Chunk::parse(bytes)
    }
}

impl<'a> vstd::std_specs::convert::TryFromSpecImpl<&'a [u8]> for Chunk {
    open spec fn obeys_try_from_spec() -> bool {
        false
    }

    open spec fn try_from_spec(bytes: &'a [u8]) -> Result<Chunk, Error> {
        arbitrary()
    }
}

} // verus!
