use crate::bytes::{be_u32, push_bytes, read_u32_be};
use crate::chunk::{lemma_parse_serialized_chunk, parse_chunk, serialize_chunk, Chunk, ChunkView};
use crate::chunk_type::type_text;
use crate::error::Error;
use vstd::prelude::*;

verus! {

/// The eight bytes that open every PNG file.
pub open spec fn png_signature() -> Seq<u8> {
    seq![137u8, 80u8, 78u8, 71u8, 13u8, 10u8, 26u8, 10u8]
}

/// The bytes of a sequence of chunks, one after the other.
pub open spec fn serialize_chunks(cs: Seq<ChunkView>) -> Seq<u8>
    decreases cs.len(),
{
    if cs.len() == 0 {
        Seq::empty()
    } else {
        serialize_chunk(cs[0]) + serialize_chunks(cs.drop_first())
    }
}

/// The bytes of a PNG file that holds the chunks `cs`.
pub open spec fn serialize_png(cs: Seq<ChunkView>) -> Seq<u8> {
    png_signature() + serialize_chunks(cs)
}

/// What reading chunks one after the other from `b` gives. Reading stops
/// without error once fewer than four bytes are left. Each chunk block, as
/// long as its length field declares, must be there in full before the chunk
/// is read from it.
pub open spec fn parse_chunks(b: Seq<u8>) -> Result<Seq<ChunkView>, Error>
    decreases b.len(),
{
    if b.len() < 4 {
        Ok(Seq::empty())
    } else if b.len() < 12 + be_u32(b.subrange(0, 4)) {
        Err(
            Error::Truncated {
                needed: (12 + be_u32(b.subrange(0, 4))) as u64,
                available: b.len() as usize,
            },
        )
    } else {
        match parse_chunk(b) {
            Err(e) => Err(e),
            Ok(c) => match parse_chunks(b.subrange(12 + c.data.len() as int, b.len() as int)) {
                Err(e) => Err(e),
                Ok(rest) => Ok(seq![c] + rest),
            },
        }
    }
}

/// Whether `r` is what reading the bytes `b` of a PNG file gives: an error
/// when there are fewer than eight bytes or they do not open with the
/// signature, else the chunks that follow.
pub open spec fn parse_png_gives(b: Seq<u8>, r: Result<Seq<ChunkView>, Error>) -> bool {
    if b.len() < 8 {
        r == Err::<Seq<ChunkView>, Error>(Error::TooShort(b.len() as usize))
    } else if b.subrange(0, 8) != png_signature() {
        r matches Err(Error::BadSignature(a)) && a@ == b.subrange(0, 8)
    } else {
        r == parse_chunks(b.subrange(8, b.len() as int))
    }
}

/// Whether the chunk `c` has the type whose text is `t`.
pub open spec fn has_type(c: ChunkView, t: Seq<char>) -> bool {
    type_text(c.chunk_type) == t
}

/// Whether some chunk of `cs` has the type whose text is `t`.
pub open spec fn has_chunk_of_type(cs: Seq<ChunkView>, t: Seq<char>) -> bool {
    exists|i: int| 0 <= i < cs.len() && #[trigger] has_type(cs[i], t)
}

/// Whether `i` is the position of the first chunk of `cs` whose type has the text `t`.
pub open spec fn is_first_of_type(cs: Seq<ChunkView>, t: Seq<char>, i: int) -> bool {
    &&& 0 <= i < cs.len()
    &&& has_type(cs[i], t)
    &&& forall|j: int| 0 <= j < i ==> !#[trigger] has_type(cs[j], t)
}

/// `r` followed by what `rest` holds, or the error of `rest`.
pub open spec fn prepend_chunks(r: Seq<ChunkView>, rest: Result<Seq<ChunkView>, Error>) -> Result<
    Seq<ChunkView>,
    Error,
> {
    match rest {
        Ok(cs) => Ok(r + cs),
        Err(e) => Err(e),
    }
}

/// The chunks of a sequence of chunks, written one after the other, read back as they were.
pub proof fn lemma_parse_serialized_chunks(cs: Seq<ChunkView>)
    requires
        forall|i: int| 0 <= i < cs.len() ==> #[trigger] cs[i].wf(),
    ensures
        parse_chunks(serialize_chunks(cs)) == Ok::<Seq<ChunkView>, Error>(cs),
    decreases cs.len(),
{
    let b = serialize_chunks(cs);
    if cs.len() == 0 {
        assert(parse_chunks(b) == Ok::<Seq<ChunkView>, Error>(Seq::<ChunkView>::empty()));
        assert(cs =~= Seq::<ChunkView>::empty());
    } else {
        let c = cs[0];
        let rest = cs.drop_first();
        assert(c.wf());
        assert forall|i: int| 0 <= i < rest.len() implies #[trigger] rest[i].wf() by {
            assert(rest[i] == cs[i + 1]);
        }
        lemma_parse_serialized_chunk(c, serialize_chunks(rest));
        lemma_parse_serialized_chunks(rest);
        assert(b.subrange(12 + c.data.len() as int, b.len() as int) =~= serialize_chunks(rest));
        assert(seq![c] + rest =~= cs);
    }
}

/// Writing the chunks of `cs` one at a time, in order, gives their bytes.
proof fn lemma_serialize_chunks_push(cs: Seq<ChunkView>, c: ChunkView)
    ensures
        serialize_chunks(cs.push(c)) == serialize_chunks(cs) + serialize_chunk(c),
    decreases cs.len(),
{
    if cs.len() == 0 {
        assert(cs.push(c).drop_first() =~= Seq::<ChunkView>::empty());
        assert(serialize_chunks(Seq::<ChunkView>::empty()) =~= Seq::<u8>::empty());
        assert(serialize_chunks(cs) =~= Seq::<u8>::empty());
        assert(serialize_chunks(cs.push(c)) =~= serialize_chunk(c));
    } else {
        lemma_serialize_chunks_push(cs.drop_first(), c);
        assert(cs.push(c).drop_first() =~= cs.drop_first().push(c));
        assert(serialize_chunks(cs.push(c)) =~= serialize_chunks(cs) + serialize_chunk(c));
    }
}

/// Round trip: reading back the bytes of a container gives its chunks, in
/// order, each with the same type, data and checksum.
pub proof fn lemma_round_trip(cs: Seq<ChunkView>)
    requires
        forall|i: int| 0 <= i < cs.len() ==> #[trigger] cs[i].wf(),
    ensures
        parse_png_gives(serialize_png(cs), Ok(cs)),
{
    let b = serialize_png(cs);
    assert(b.subrange(0, 8) =~= png_signature());
    assert(b.subrange(8, b.len() as int) =~= serialize_chunks(cs));
    lemma_parse_serialized_chunks(cs);
}

/// The bytes of a container depend on its chunks alone, so serializing a
/// container twice without changing it in between gives the same bytes.
pub proof fn lemma_serialize_twice(a: Seq<ChunkView>, b: Seq<ChunkView>)
    requires
        a == b,
    ensures
        serialize_png(a) == serialize_png(b),
{
}

/// A chunk appended to a container that holds no chunk of its type is then
/// the first chunk of its type, and taking it out again leaves the container
/// as it was, with no chunk of that type.
pub proof fn lemma_append_then_find(cs: Seq<ChunkView>, c: ChunkView)
    requires
        !has_chunk_of_type(cs, type_text(c.chunk_type)),
    ensures
        forall|i: int|
            is_first_of_type(cs.push(c), type_text(c.chunk_type), i) <==> i == cs.len(),
        cs.push(c)[cs.len() as int] == c,
        cs.push(c).remove(cs.len() as int) == cs,
        !has_chunk_of_type(cs.push(c).remove(cs.len() as int), type_text(c.chunk_type)),
{
    let t = type_text(c.chunk_type);
    let d = cs.push(c);
    assert forall|i: int| is_first_of_type(d, t, i) <==> i == cs.len() by {
        if i == cs.len() {
            assert forall|j: int| 0 <= j < i implies !#[trigger] has_type(d[j], t) by {
                assert(d[j] == cs[j]);
            }
        }
        if is_first_of_type(d, t, i) && i < cs.len() {
            assert(d[i] == cs[i]);
            assert(has_type(cs[i], t));
        }
    }
    assert(d.remove(cs.len() as int) =~= cs);
}

/// Of two chunks of one type appended in turn to a container that holds no
/// chunk of that type, the first one appended is the first of its type: it is
/// the one that lookup and removal by type find.
pub proof fn lemma_first_appended_is_found(cs: Seq<ChunkView>, a: ChunkView, b: ChunkView)
    requires
        a.chunk_type == b.chunk_type,
        !has_chunk_of_type(cs, type_text(a.chunk_type)),
    ensures
        forall|i: int|
            is_first_of_type(cs.push(a).push(b), type_text(a.chunk_type), i) <==> i == cs.len(),
        cs.push(a).push(b)[cs.len() as int] == a,
{
    let t = type_text(a.chunk_type);
    let d = cs.push(a).push(b);
    lemma_append_then_find(cs, a);
    assert forall|i: int| is_first_of_type(d, t, i) <==> i == cs.len() by {
        if i == cs.len() {
            assert forall|j: int| 0 <= j < i implies !#[trigger] has_type(d[j], t) by {
                assert(d[j] == cs[j]);
            }
        }
        if is_first_of_type(d, t, i) && i != cs.len() {
            if i < cs.len() {
                assert(d[i] == cs[i]);
                assert(has_type(cs[i], t));
            } else {
                assert(d[cs.len() as int] == a);
                assert(has_type(d[cs.len() as int], t));
            }
        }
    }
}

/// The container of a PNG file: the signature, then an ordered sequence of chunks.
pub struct Png {
    chunks: Vec<Chunk>,
}

impl View for Png {
    type V = Seq<ChunkView>;

    closed spec fn view(&self) -> Seq<ChunkView> {
        self.chunks@.map_values(|c: Chunk| c@)
    }
}

impl Png {
    /// The signature that opens every PNG file.
    pub const STANDARD_HEADER: [u8; 8] = [137, 80, 78, 71, 13, 10, 26, 10];

    /// A container with no chunks.
    pub fn new() -> (r: Png)
        ensures
            r@ == Seq::<ChunkView>::empty(),
    {
        let r = Png { chunks: Vec::new() };
        assert(r@ =~= Seq::<ChunkView>::empty());
        r
    }

    /// A container that holds `chunks`, in their order.
    pub fn from_chunks(chunks: Vec<Chunk>) -> (r: Png)
        ensures
            r@ == chunks@.map_values(|c: Chunk| c@),
    {
        Png { chunks }
    }

    /// Adds `chunk` after all the others.
    pub fn append_chunk(&mut self, chunk: Chunk)
        ensures
            final(self)@ == old(self)@.push(chunk@),
    {
        self.chunks.push(chunk);
        assert(final(self)@ =~= old(self)@.push(chunk@));
    }

    /// The position of the first chunk whose type has the text `chunk_type`.
    fn position_of_type(&self, chunk_type: &str) -> (r: Option<usize>)
        ensures
            match r {
                Some(i) => is_first_of_type(self@, chunk_type@, i as int),
                None => !has_chunk_of_type(self@, chunk_type@),
            },
    {
        let mut i: usize = 0;
        while i < self.chunks.len()
            invariant
                0 <= i <= self.chunks@.len(),
                self@.len() == self.chunks@.len(),
                forall|j: int| 0 <= j < i ==> !#[trigger] has_type(self@[j], chunk_type@),
            decreases self.chunks@.len() - i,
        {
            assert(self@[i as int] == self.chunks@[i as int]@);
            if self.chunks[i].chunk_type().has_text(chunk_type) {
                return Some(i);
            }
            i = i + 1;
        }
        None
    }

    /// Takes out the first chunk whose type has the text `chunk_type`, and
    /// returns it; fails with `NotFound` when there is none.
    pub fn remove_chunk(&mut self, chunk_type: &str) -> (r: Result<Chunk, Error>)
        ensures
            match r {
                Ok(c) => exists|i: int|
                    is_first_of_type(old(self)@, chunk_type@, i) && c@ == old(self)@[i]
                        && final(self)@ == old(self)@.remove(i),
                Err(e) => {
                    &&& !has_chunk_of_type(old(self)@, chunk_type@)
                    &&& final(self)@ == old(self)@
                    &&& e matches Error::NotFound(s) && s@ == chunk_type@
                },
            },
    {
        match self.position_of_type(chunk_type) {
            Some(i) => {
                let c = self.chunks.remove(i);
                assert(final(self)@ =~= old(self)@.remove(i as int));
                Ok(c)
            },
            None => Err(Error::NotFound(chunk_type.to_owned())),
        }
    }

    /// The signature that opens every PNG file.
    pub fn header() -> (r: &'static [u8; 8])
        ensures
            r@ == png_signature(),
    {
        let r = &Self::STANDARD_HEADER;
        assert(r@ =~= png_signature());
        r
    }

    /// The chunks, in order.
    pub fn chunks(&self) -> (r: &[Chunk])
        ensures
            r@.map_values(|c: Chunk| c@) == self@,
    {
        self.chunks.as_slice()
    }

    /// The first chunk whose type has the text `chunk_type`, if there is one.
    pub fn chunk_by_type(&self, chunk_type: &str) -> (r: Option<&Chunk>)
        ensures
            match r {
                Some(c) => exists|i: int| is_first_of_type(self@, chunk_type@, i) && c@ == self@[i],
                None => !has_chunk_of_type(self@, chunk_type@),
            },
    {
        match self.position_of_type(chunk_type) {
            Some(i) => Some(&self.chunks[i]),
            None => None,
        }
    }

    /// The bytes of the file: the signature, then each chunk in order.
    pub fn as_bytes(&self) -> (r: Vec<u8>)
        ensures
            r@ == serialize_png(self@),
    {
        let mut r: Vec<u8> = Vec::new();
        push_bytes(&mut r, Self::STANDARD_HEADER.as_slice());
        assert(r@ =~= png_signature());
        let mut i: usize = 0;
        while i < self.chunks.len()
            invariant
                0 <= i <= self.chunks@.len(),
                self@.len() == self.chunks@.len(),
                r@ == png_signature() + serialize_chunks(self@.subrange(0, i as int)),
            decreases self.chunks@.len() - i,
        {
            let b = self.chunks[i].as_bytes();
            push_bytes(&mut r, b.as_slice());
            proof {
                lemma_serialize_chunks_push(self@.subrange(0, i as int), self@[i as int]);
                assert(self@.subrange(0, i as int).push(self@[i as int]) =~= self@.subrange(
                    0,
                    i + 1,
                ));
            }
            i = i + 1;
        }
        assert(self@.subrange(0, i as int) =~= self@);
        r
    }

    /// Reads a PNG file: the signature, then chunks until fewer than four bytes are left.
    pub fn parse(bytes: &[u8]) -> (r: Result<Png, Error>)
        ensures
            match r {
                Ok(p) => parse_png_gives(bytes@, Ok(p@)),
                Err(e) => parse_png_gives(bytes@, Err(e)),
            },
    {
        if bytes.len() < 8 {
            return Err(Error::TooShort(bytes.len()));
        }
        let header = [
            bytes[0],
            bytes[1],
            bytes[2],
            bytes[3],
            bytes[4],
            bytes[5],
            bytes[6],
            bytes[7],
        ];
        assert(header@ =~= bytes@.subrange(0, 8));
        let mut k: usize = 0;
        while k < 8
            invariant
                0 <= k <= 8,
                bytes@.len() >= 8,
                header@ == bytes@.subrange(0, 8),
                forall|j: int| 0 <= j < k ==> header@[j] == png_signature()[j],
            decreases 8 - k,
        {
            if header[k] != Self::STANDARD_HEADER[k] {
                assert(bytes@.subrange(0, 8)[k as int] != png_signature()[k as int]);
                return Err(Error::BadSignature(header));
            }
            k = k + 1;
        }
        assert(bytes@.subrange(0, 8) =~= png_signature());
        let ghost body = bytes@.subrange(8, bytes@.len() as int);
        let mut chunks: Vec<Chunk> = Vec::new();
        let mut pos: usize = 8;
        while bytes.len() - pos >= 4
            invariant
                8 <= pos <= bytes@.len(),
                bytes@.subrange(0, 8) == png_signature(),
                body == bytes@.subrange(8, bytes@.len() as int),
                parse_chunks(body) == prepend_chunks(
                    chunks@.map_values(|c: Chunk| c@),
                    parse_chunks(bytes@.subrange(pos as int, bytes@.len() as int)),
                ),
            decreases bytes@.len() - pos,
        {
            let ghost rest = bytes@.subrange(pos as int, bytes@.len() as int);
            let ghost before = chunks@.map_values(|c: Chunk| c@);
            let available = bytes.len() - pos;
            let declared = read_u32_be(bytes, pos);
            assert(bytes@.subrange(pos as int, pos + 4) =~= rest.subrange(0, 4));
            let needed: u64 = 12 + (declared as u64);
            if (available as u64) < needed {
                assert(parse_chunks(rest) == Err::<Seq<ChunkView>, Error>(
                    Error::Truncated { needed, available },
                ));
                return Err(Error::Truncated { needed, available });
            }
            let c = match Chunk::parse_at(bytes, pos) {
                Ok(c) => c,
                Err(e) => {
                    assert(parse_chunks(rest) == Err::<Seq<ChunkView>, Error>(e));
                    return Err(e);
                },
            };
            let n = c.length();
            pos = pos + 12 + n as usize;
            proof {
                assert(rest.subrange(12 + c@.data.len() as int, rest.len() as int) =~= bytes@.subrange(
                    pos as int,
                    bytes@.len() as int,
                ));
            }
            chunks.push(c);
            proof {
                assert(chunks@.map_values(|c: Chunk| c@) =~= before.push(c@));
                assert(before + (seq![c@] + Seq::<ChunkView>::empty()) =~= before.push(c@));
                match parse_chunks(bytes@.subrange(pos as int, bytes@.len() as int)) {
                    Ok(tail) => {
                        assert(before + (seq![c@] + tail) =~= before.push(c@) + tail);
                    },
                    Err(_) => {},
                }
            }
        }
        let p = Png { chunks };
        proof {
            assert(p@ + Seq::<ChunkView>::empty() =~= p@);
        }
        Ok(p)
    }
}

impl<'a> TryFrom<&'a [u8]> for Png {
    type Error = Error;

    /// Reads a PNG file, as [`Png::parse`] does.
    fn try_from(bytes: &'a [u8]) -> (r: Result<Png, Error>)
        ensures
            match r {
                Ok(p) => parse_png_gives(bytes@, Ok(p@)),
                Err(e) => parse_png_gives(bytes@, Err(e)),
            },
    {
        Png::parse(bytes)
    }
}

impl<'a> vstd::std_specs::convert::TryFromSpecImpl<&'a [u8]> for Png {
    open spec fn obeys_try_from_spec() -> bool {
        false
    }

    open spec fn try_from_spec(bytes: &'a [u8]) -> Result<Png, Error> {
        arbitrary()
    }
}

} // verus!
