use crate::bytes::push_bytes;
use crate::chunk::{crc32_of, Chunk, ChunkView};
use crate::chunk_type::{chunk_type_from_text_result, ChunkType};
use crate::error::Error;
use crate::png::{has_chunk_of_type, is_first_of_type, parse_png_gives, serialize_png, Png};
use vstd::prelude::*;
use vstd::string::StringSliceAdditionalSpecFns;
use vstd::utf8::{decode_utf8, encode_utf8, valid_utf8};

verus! {

/// Hide a message in a PNG file.
pub struct EncodeArgs {
    pub file_path: String,
    pub chunk_type: String,
    pub message: String,
    /// Where to write the result instead of the file itself.
    pub output_file: Option<String>,
}

/// Show the message hidden in a PNG file under a chunk type.
pub struct DecodeArgs {
    pub file_path: String,
    pub chunk_type: String,
}

/// Take the first message of a chunk type out of a PNG file.
pub struct RemoveArgs {
    pub file_path: String,
    pub chunk_type: String,
    /// Do not show the message that was taken out.
    pub ignore_messages: bool,
}

/// Show the chunks of a PNG file.
pub struct PrintArgs {
    pub file_path: String,
}

/// One command of the tool.
pub enum CommandType {
    Encode(EncodeArgs),
    Decode(DecodeArgs),
    Remove(RemoveArgs),
    Print(PrintArgs),
}

/// The command line, once read.
pub struct CliArgs {
    command: CommandType,
}

impl CliArgs {
    /// A command line that asks for `command`.
    pub fn new(command: CommandType) -> (r: CliArgs)
        ensures
            r.spec_command() == command,
    {
        CliArgs { command }
    }

    /// The command that was asked for.
    pub closed spec fn spec_command(self) -> CommandType {
        self.command
    }

    /// The command that was asked for.
    pub fn command(self) -> (r: CommandType)
        ensures
            r == self.spec_command(),
    {
        self.command
    }
}

impl CommandType {
    /// The path of the file that the command reads.
    pub open spec fn spec_file_path(self) -> String {
        match self {
            CommandType::Encode(a) => a.file_path,
            CommandType::Decode(a) => a.file_path,
            CommandType::Remove(a) => a.file_path,
            CommandType::Print(a) => a.file_path,
        }
    }

    /// The path of the file that the command reads.
    pub fn file_path(&self) -> (r: &String)
        ensures
            *r == self.spec_file_path(),
    {
        match self {
            CommandType::Encode(a) => &a.file_path,
            CommandType::Decode(a) => &a.file_path,
            CommandType::Remove(a) => &a.file_path,
            CommandType::Print(a) => &a.file_path,
        }
    }
}

/// What a command asks the caller to do once the library is done with the file.
pub enum Outcome {
    /// Write `bytes` to the file at `path`.
    Write { path: String, bytes: Vec<u8> },
    /// Show the message found, or that there was none.
    Decoded(Option<String>),
    /// Show the message taken out, unless the caller asked not to see it.
    Removed(Option<String>),
    /// Show the chunks of the file.
    Show(Png),
}

/// Why a command failed.
#[derive(Debug, PartialEq, Eq)]
pub enum CommandError {
    /// The file is not a PNG file that can be read.
    InvalidPng(Error),
    /// The chunk type given is not valid.
    InvalidChunkType(Error),
    /// The message is longer than one chunk can hold; holds its length.
    MessageTooLong(usize),
    /// The data of the chunk found is not a text message.
    InvalidMessage(Error),
    /// No chunk has the chunk type given; holds it.
    NotFound(String),
}

/// The chunk in which `message` is hidden under the chunk type `t`.
pub open spec fn message_chunk(t: Seq<u8>, message: Seq<char>) -> ChunkView {
    ChunkView { chunk_type: t, data: encode_utf8(message), crc: crc32_of(encode_utf8(message)) }
}

/// The path that an encoding writes to: the output file if one was given, else the input file.
pub open spec fn encode_target(a: EncodeArgs) -> String {
    match a.output_file {
        Some(p) => p,
        None => a.file_path,
    }
}

/// Whether `r` is what encoding as `a` asks does to the PNG file with bytes `file`.
pub open spec fn encode_gives(a: EncodeArgs, file: Seq<u8>, r: Result<Outcome, CommandError>) -> bool {
    match r {
        Ok(out) => exists|cs: Seq<ChunkView>, t: Seq<u8>|
            {
                &&& #[trigger] parse_png_gives(file, Ok(cs))
                &&& chunk_type_from_text_result(a.chunk_type@) == Ok::<Seq<u8>, Error>(t)
                &&& encode_utf8(a.message@).len() <= u32::MAX
                &&& out matches Outcome::Write { path, bytes }
                &&& path == encode_target(a)
                &&& bytes@ == serialize_png(cs.push(#[trigger] message_chunk(t, a.message@)))
            },
        Err(CommandError::InvalidPng(e)) => parse_png_gives(file, Err(e)),
        Err(CommandError::InvalidChunkType(e)) => {
            &&& exists|cs: Seq<ChunkView>| #[trigger] parse_png_gives(file, Ok(cs))
            &&& chunk_type_from_text_result(a.chunk_type@) == Err::<Seq<u8>, Error>(e)
        },
        Err(CommandError::MessageTooLong(n)) => {
            &&& exists|cs: Seq<ChunkView>| #[trigger] parse_png_gives(file, Ok(cs))
            &&& chunk_type_from_text_result(a.chunk_type@) is Ok
            &&& n == encode_utf8(a.message@).len()
            &&& n > u32::MAX
        },
        Err(_) => false,
    }
}

/// The bytes of `s`, in a vector of their own.
fn text_bytes(s: &String) -> (r: Vec<u8>)
    ensures
        r@ == encode_utf8(s@),
{
    let mut r: Vec<u8> = Vec::new();
    push_bytes(&mut r, s.as_str().as_bytes());
    r
}

/// Appends a chunk that holds the message to the PNG file with bytes `file`,
/// and asks for the result to be written.
pub fn encode(args: &EncodeArgs, file: &[u8]) -> (r: Result<Outcome, CommandError>)
    ensures
        encode_gives(*args, file@, r),
{
    let mut png = match Png::parse(file) {
        Ok(p) => p,
        Err(e) => {
            return Err(CommandError::InvalidPng(e));
        },
    };
    let ghost cs = png@;
    assert(parse_png_gives(file@, Ok(cs)));
    let chunk_type = match ChunkType::from_text(args.chunk_type.as_str()) {
        Ok(t) => t,
        Err(e) => {
            return Err(CommandError::InvalidChunkType(e));
        },
    };
    let ghost t = chunk_type@;
    assert(chunk_type_from_text_result(args.chunk_type@) == Ok::<Seq<u8>, Error>(t));
    let data = text_bytes(&args.message);
    if data.len() > 4294967295 {
        return Err(CommandError::MessageTooLong(data.len()));
    }
    let chunk = Chunk::new(chunk_type, data);
    assert(chunk@ == message_chunk(t, args.message@));
    png.append_chunk(chunk);
    let path = match &args.output_file {
        Some(p) => p.clone(),
        None => args.file_path.clone(),
    };
    let bytes = png.as_bytes();
    assert(bytes@ == serialize_png(cs.push(message_chunk(t, args.message@))));
    Ok(Outcome::Write { path, bytes })
}

/// Whether `r` is what decoding as `a` asks gives on the PNG file with bytes `file`.
pub open spec fn decode_gives(a: DecodeArgs, file: Seq<u8>, r: Result<Outcome, CommandError>) -> bool {
    match r {
        Ok(Outcome::Decoded(None)) => exists|cs: Seq<ChunkView>|
            #[trigger] parse_png_gives(file, Ok(cs)) && !has_chunk_of_type(cs, a.chunk_type@),
        Ok(Outcome::Decoded(Some(m))) => exists|cs: Seq<ChunkView>, i: int|
            {
                &&& #[trigger] parse_png_gives(file, Ok(cs))
                &&& #[trigger] is_first_of_type(cs, a.chunk_type@, i)
                &&& valid_utf8(cs[i].data)
                &&& m@ == decode_utf8(cs[i].data)
            },
        Err(CommandError::InvalidPng(e)) => parse_png_gives(file, Err(e)),
        Err(CommandError::InvalidMessage(e)) => {
            &&& e == Error::InvalidUtf8
            &&& exists|cs: Seq<ChunkView>, i: int|
                {
                    &&& #[trigger] parse_png_gives(file, Ok(cs))
                    &&& #[trigger] is_first_of_type(cs, a.chunk_type@, i)
                    &&& !valid_utf8(cs[i].data)
                }
        },
        _ => false,
    }
}

/// Finds the message hidden in the first chunk of the given type, if any.
pub fn decode(args: &DecodeArgs, file: &[u8]) -> (r: Result<Outcome, CommandError>)
    ensures
        decode_gives(*args, file@, r),
{
    let png = match Png::parse(file) {
        Ok(p) => p,
        Err(e) => {
            return Err(CommandError::InvalidPng(e));
        },
    };
    assert(parse_png_gives(file@, Ok(png@)));
    match png.chunk_by_type(args.chunk_type.as_str()) {
        Some(chunk) => match chunk.data_as_string() {
            Ok(m) => Ok(Outcome::Decoded(Some(m))),
            Err(e) => Err(CommandError::InvalidMessage(e)),
        },
        None => Ok(Outcome::Decoded(None)),
    }
}

/// Whether `r` is what removing as `a` asks gives on the PNG file with bytes `file`.
pub open spec fn remove_gives(a: RemoveArgs, file: Seq<u8>, r: Result<Outcome, CommandError>) -> bool {
    match r {
        Ok(Outcome::Removed(m)) => exists|cs: Seq<ChunkView>, i: int|
            {
                &&& #[trigger] parse_png_gives(file, Ok(cs))
                &&& #[trigger] is_first_of_type(cs, a.chunk_type@, i)
                &&& if a.ignore_messages {
                    m is None
                } else {
                    &&& valid_utf8(cs[i].data)
                    &&& m matches Some(s) && s@ == decode_utf8(cs[i].data)
                }
            },
        Err(CommandError::InvalidPng(e)) => parse_png_gives(file, Err(e)),
        Err(CommandError::NotFound(s)) => {
            &&& s@ == a.chunk_type@
            &&& exists|cs: Seq<ChunkView>|
                #[trigger] parse_png_gives(file, Ok(cs)) && !has_chunk_of_type(cs, a.chunk_type@)
        },
        Err(CommandError::InvalidMessage(e)) => {
            &&& !a.ignore_messages
            &&& e == Error::InvalidUtf8
            &&& exists|cs: Seq<ChunkView>, i: int|
                {
                    &&& #[trigger] parse_png_gives(file, Ok(cs))
                    &&& #[trigger] is_first_of_type(cs, a.chunk_type@, i)
                    &&& !valid_utf8(cs[i].data)
                }
        },
        _ => false,
    }
}

/// Takes the first chunk of the given type out, and gives its message unless
/// the caller asked not to see it; the data is read as text only in that
/// case. The file itself is left as it is.
pub fn remove_chunk(args: &RemoveArgs, file: &[u8]) -> (r: Result<Outcome, CommandError>)
    ensures
        remove_gives(*args, file@, r),
{
    let mut png = match Png::parse(file) {
        Ok(p) => p,
        Err(e) => {
            return Err(CommandError::InvalidPng(e));
        },
    };
    let ghost cs = png@;
    assert(parse_png_gives(file@, Ok(cs)));
    match png.remove_chunk(args.chunk_type.as_str()) {
        Ok(chunk) => {
            if args.ignore_messages {
                return Ok(Outcome::Removed(None));
            }
            match chunk.data_as_string() {
                Ok(m) => Ok(Outcome::Removed(Some(m))),
                Err(e) => Err(CommandError::InvalidMessage(e)),
            }
        },
        Err(_) => Err(CommandError::NotFound(args.chunk_type.clone())),
    }
}

/// Reads the PNG file with bytes `file` so that its chunks can be shown.
pub fn print_png(file: &[u8]) -> (r: Result<Outcome, CommandError>)
    ensures
        match r {
            Ok(Outcome::Show(p)) => parse_png_gives(file@, Ok(p@)),
            Err(CommandError::InvalidPng(e)) => parse_png_gives(file@, Err(e)),
            _ => false,
        },
{
    match Png::parse(file) {
        Ok(p) => Ok(Outcome::Show(p)),
        Err(e) => Err(CommandError::InvalidPng(e)),
    }
}

/// Whether `r` is what running `command` gives on the bytes `file` of the file it names.
pub open spec fn command_gives(command: CommandType, file: Seq<u8>, r: Result<Outcome, CommandError>) -> bool {
    match command {
        CommandType::Encode(a) => encode_gives(a, file, r),
        CommandType::Decode(a) => decode_gives(a, file, r),
        CommandType::Remove(a) => remove_gives(a, file, r),
        CommandType::Print(_) => match r {
            Ok(Outcome::Show(p)) => parse_png_gives(file, Ok(p@)),
            Err(CommandError::InvalidPng(e)) => parse_png_gives(file, Err(e)),
            _ => false,
        },
    }
}

/// Runs `command` on the bytes `file` of the file that it names.
pub fn execute_command(command: CommandType, file: &[u8]) -> (r: Result<Outcome, CommandError>)
    ensures
        command_gives(command, file@, r),
{
    match command {
        CommandType::Encode(args) => encode(&args, file),
        CommandType::Decode(args) => decode(&args, file),
        CommandType::Remove(args) => remove_chunk(&args, file),
        CommandType::Print(_) => print_png(file),
    }
}

/// Runs the command of the command line `args` on the bytes `file` of the file that it names.
pub fn run(args: CliArgs, file: &[u8]) -> (r: Result<Outcome, CommandError>)
    ensures
        command_gives(args.spec_command(), file@, r),
{
    execute_command(args.command(), file)
}

} // verus!
