use crate::error::Error;
use crate::text::utf8_to_string;
use vstd::prelude::*;
use vstd::string::StringSliceAdditionalSpecFns;
use vstd::utf8::*;

verus! {

broadcast use group_utf8_lib;

/// `b` is an ASCII upper-case letter.
pub open spec fn is_upper(b: u8) -> bool {
    65 <= b <= 90
}

/// `b` is an ASCII lower-case letter.
pub open spec fn is_lower(b: u8) -> bool {
    97 <= b <= 122
}

/// `b` is an ASCII letter.
pub open spec fn is_alpha(b: u8) -> bool {
    is_upper(b) || is_lower(b)
}

/// Four bytes, each an ASCII letter: the bytes a chunk type may have.
pub open spec fn valid_type_bytes(b: Seq<u8>) -> bool {
    b.len() == 4 && forall|i: int| 0 <= i < 4 ==> #[trigger] is_alpha(b[i])
}

/// What building a chunk type from the four bytes `b` gives: the bytes
/// themselves, or an error that names the first byte that is not a letter.
pub open spec fn chunk_type_result(b: Seq<u8>) -> Result<Seq<u8>, Error>
    recommends
        b.len() == 4,
{
    if !is_alpha(b[0]) {
        Err(Error::InvalidByte(b[0]))
    } else if !is_alpha(b[1]) {
        Err(Error::InvalidByte(b[1]))
    } else if !is_alpha(b[2]) {
        Err(Error::InvalidByte(b[2]))
    } else if !is_alpha(b[3]) {
        Err(Error::InvalidByte(b[3]))
    } else {
        Ok(b)
    }
}

/// What building a chunk type from the text `s` gives.
pub open spec fn chunk_type_from_text_result(s: Seq<char>) -> Result<Seq<u8>, Error> {
    let b = encode_utf8(s);
    if b.len() != 4 {
        Err(Error::LengthMismatch(b.len() as usize))
    } else {
        chunk_type_result(b)
    }
}

/// The text of a chunk type: each byte read as one character.
pub open spec fn type_text(b: Seq<u8>) -> Seq<char> {
    b.map_values(|x: u8| x as char)
}

/// The bytes of a chunk type are valid UTF-8 and decode to one character per byte.
pub proof fn lemma_ascii_text(b: Seq<u8>)
    requires
        valid_type_bytes(b),
    ensures
        encode_utf8(type_text(b)) == b,
        valid_utf8(b),
        decode_utf8(b) == type_text(b),
{
    let t = type_text(b);
    assert(is_ascii_chars(t)) by {
        assert forall|i: int| 0 <= i < t.len() implies '\0' <= #[trigger] t[i] <= '\u{7f}' by {
            assert(is_alpha(b[i]));
        }
    }
    is_ascii_chars_encode_utf8(t);
    assert(encode_utf8(t) =~= b);
}

/// A four-letter chunk-type code, such as `IHDR` or `ruSt`.
///
/// The case of each letter carries a flag: critical (first), public
/// (second), reserved bit valid (third) and safe to copy (fourth, lower case).
#[derive(Debug)]
pub struct ChunkType {
    values: [u8; 4],
}

impl View for ChunkType {
    type V = Seq<u8>;

    closed spec fn view(&self) -> Seq<u8> {
        self.values@
    }
}

impl ChunkType {
    #[verifier::type_invariant]
    pub(crate) open spec fn inv(&self) -> bool {
        valid_type_bytes(self@)
    }

    /// Builds a chunk type from four bytes, which must all be ASCII letters.
    pub fn from_bytes(bytes: [u8; 4]) -> (r: Result<ChunkType, Error>)
        ensures
            r is Ok <==> valid_type_bytes(bytes@),
            match r {
                Ok(t) => chunk_type_result(bytes@) == Ok::<Seq<u8>, Error>(t@),
                Err(e) => chunk_type_result(bytes@) == Err::<Seq<u8>, Error>(e),
            },
    {
        let mut i: usize = 0;
        while i < 4
            invariant
                0 <= i <= 4,
                forall|j: int| 0 <= j < i ==> #[trigger] is_alpha(bytes@[j]),
            decreases 4 - i,
        {
            match Self::is_byte_valid(bytes[i]) {
                Ok(()) => {},
                Err(e) => {
                    return Err(e);
                },
            }
            i = i + 1;
        }
        Ok(ChunkType { values: bytes })
    }

    /// Builds a chunk type from text, whose UTF-8 form must be four ASCII letters.
    pub fn from_text(s: &str) -> (r: Result<ChunkType, Error>)
        ensures
            match r {
                Ok(t) => chunk_type_from_text_result(s@) == Ok::<Seq<u8>, Error>(t@),
                Err(e) => chunk_type_from_text_result(s@) == Err::<Seq<u8>, Error>(e),
            },
            r matches Ok(t) ==> type_text(t@) == s@,
    {
        let b = s.as_bytes();
        let len = b.len();
        if len != 4 {
            return Err(Error::LengthMismatch(len));
        }
        let four = [b[0], b[1], b[2], b[3]];
        assert(four@ =~= b@);
        let r = Self::from_bytes(four);
        proof {
            if r is Ok {
                lemma_ascii_text(b@);
            }
        }
        r
    }

    /// The four bytes of this chunk type.
    pub fn bytes(&self) -> (r: [u8; 4])
        ensures
            r@ == self@,
    {
        self.values
    }

    /// Whether the chunk type is valid: its reserved bit (third letter) is upper case.
    pub fn is_valid(&self) -> (r: bool)
        ensures
            r == is_upper(self@[2]),
    {
        self.is_reserved_bit_valid()
    }

    /// Whether a reader must understand the chunk: its first letter is upper case.
    pub fn is_critical(&self) -> (r: bool)
        ensures
            r == is_upper(self@[0]),
    {
        proof {
            use_type_invariant(self);
        }
        is_upper_byte(self.values[0])
    }

    /// Whether the chunk type is a registered one: its second letter is upper case.
    pub fn is_public(&self) -> (r: bool)
        ensures
            r == is_upper(self@[1]),
    {
        proof {
            use_type_invariant(self);
        }
        is_upper_byte(self.values[1])
    }

    /// Whether the reserved bit is as the format asks: the third letter is upper case.
    pub fn is_reserved_bit_valid(&self) -> (r: bool)
        ensures
            r == is_upper(self@[2]),
    {
        proof {
            use_type_invariant(self);
        }
        Self::is_reserved_byte_valid(self.values[2])
    }

    /// Whether `byte` is a valid third byte of a chunk type: an upper-case letter.
    pub fn is_reserved_byte_valid(byte: u8) -> (r: bool)
        ensures
            r == is_upper(byte),
    {
        is_upper_byte(byte)
    }

    /// Whether an editor may copy the chunk unseen: its fourth letter is lower case.
    pub fn is_safe_to_copy(&self) -> (r: bool)
        ensures
            r == is_lower(self@[3]),
    {
        proof {
            use_type_invariant(self);
        }
        let b = self.values[3];
        97 <= b && b <= 122
    }

    fn is_byte_valid(byte: u8) -> (r: Result<(), Error>)
        ensures
            r is Ok <==> is_alpha(byte),
            r matches Err(e) ==> e == Error::InvalidByte(byte),
    {
        if !(is_upper_byte(byte) || (97 <= byte && byte <= 122)) {
            return Err(Error::InvalidByte(byte));
        }
        Ok(())
    }

    /// The chunk type as text, one character per byte.
    pub fn to_string(&self) -> (r: String)
        ensures
            r@ == type_text(self@),
    {
        proof {
            use_type_invariant(self);
            lemma_ascii_text(self@);
        }
        let v = vec![self.values[0], self.values[1], self.values[2], self.values[3]];
        assert(v@ =~= self@);
        match utf8_to_string(v) {
            Some(s) => s,
            None => String::new(),
        }
    }

    /// Whether the text of this chunk type is `s`.
    pub fn has_text(&self, s: &str) -> (r: bool)
        ensures
            r == (s@ == type_text(self@)),
    {
        proof {
            use_type_invariant(self);
            lemma_ascii_text(self@);
        }
        let b = s.as_bytes();
        if b.len() != 4 {
            return false;
        }
        let same = b[0] == self.values[0] && b[1] == self.values[1] && b[2] == self.values[2]
            && b[3] == self.values[3];
        proof {
            if same {
                assert(b@ =~= self@);
            } else {
                assert(encode_utf8(s@) != self@);
            }
        }
        same
    }
}

fn is_upper_byte(b: u8) -> (r: bool)
    ensures
        r == is_upper(b),
{
    65 <= b && b <= 90
}

impl PartialEq for ChunkType {
    fn eq(&self, other: &ChunkType) -> (r: bool) {
        proof {
            assert(self@ =~= other@ <== (forall|i: int| 0 <= i < 4 ==> self@[i] == other@[i]));
        }
        self.values[0] == other.values[0] && self.values[1] == other.values[1]
            && self.values[2] == other.values[2] && self.values[3] == other.values[3]
    }
}

impl vstd::std_specs::cmp::PartialEqSpecImpl for ChunkType {
    open spec fn obeys_eq_spec() -> bool {
        true
    }

    open spec fn eq_spec(&self, other: &ChunkType) -> bool {
        self@ == other@
    }
}

impl Eq for ChunkType {

}

impl TryFrom<[u8; 4]> for ChunkType {
    type Error = Error;

    /// Builds a chunk type from four bytes, as [`ChunkType::from_bytes`] does.
    fn try_from(bytes: [u8; 4]) -> (r: Result<ChunkType, Error>)
        ensures
            r is Ok <==> valid_type_bytes(bytes@),
            match r {
                Ok(t) => chunk_type_result(bytes@) == Ok::<Seq<u8>, Error>(t@),
                Err(e) => chunk_type_result(bytes@) == Err::<Seq<u8>, Error>(e),
            },
    {
        let r = ChunkType::from_bytes(bytes);
        proof {
            if r is Ok {
                let t = r->Ok_0;
                assert(t.values@ == bytes@);
                assert(t.values == bytes);
            }
        }
        r
    }
}

impl vstd::std_specs::convert::TryFromSpecImpl<[u8; 4]> for ChunkType {
    open spec fn obeys_try_from_spec() -> bool {
        true
    }

    open spec fn try_from_spec(bytes: [u8; 4]) -> Result<ChunkType, Error> {
        chunk_type_from_array(bytes)
    }
}

/// What building a chunk type from the array `bytes` gives.
pub closed spec fn chunk_type_from_array(bytes: [u8; 4]) -> Result<ChunkType, Error> {
    match chunk_type_result(bytes@) {
        Ok(_) => Ok(ChunkType { values: bytes }),
        Err(e) => Err(e),
    }
}

impl core::str::FromStr for ChunkType {
    type Err = Error;

    /// Builds a chunk type from text, as [`ChunkType::from_text`] does.
    fn from_str(s: &str) -> (r: Result<ChunkType, Error>)
        ensures
            match r {
                Ok(t) => chunk_type_from_text_result(s@) == Ok::<Seq<u8>, Error>(t@),
                Err(e) => chunk_type_from_text_result(s@) == Err::<Seq<u8>, Error>(e),
            },
            r matches Ok(t) ==> type_text(t@) == s@,
    {
        ChunkType::from_text(s)
    }
}

} // verus!
