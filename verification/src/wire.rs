//! Bytes on the wire: big-endian numbers, text, and the two kinds of compression.
use byteorder::{BigEndian, ReadBytesExt, WriteBytesExt};
use std::io::Read;
use vstd::prelude::*;
use vstd::slice::*;
use vstd::utf8::*;

verus! {

/// An error of std's input and output.
#[verifier::external_type_specification]
#[verifier::external_body]
pub struct ExIoError(std::io::Error);

/// The error of `String::from_utf8`.
#[verifier::external_type_specification]
#[verifier::external_body]
pub struct ExFromUtf8Error(std::string::FromUtf8Error);

/// The big-endian number in the first two bytes.
pub open spec fn be_u16(s: Seq<u8>) -> int
    recommends
        s.len() >= 2,
{
    s[0] * 0x100 + s[1]
}

/// The big-endian number in the first four bytes.
pub open spec fn be_u32(s: Seq<u8>) -> int
    recommends
        s.len() >= 4,
{
    s[0] * 0x100_0000 + s[1] * 0x1_0000 + s[2] * 0x100 + s[3]
}

/// A number below 2^16 as two bytes, the high one first.
pub open spec fn be_u16_bytes(n: int) -> Seq<u8> {
    seq![(n / 0x100) as u8, (n % 0x100) as u8]
}

/// A number below 2^32 as four bytes, the highest one first.
pub open spec fn be_u32_bytes(n: int) -> Seq<u8> {
    seq![
        (n / 0x100_0000) as u8,
        (n / 0x1_0000 % 0x100) as u8,
        (n / 0x100 % 0x100) as u8,
        (n % 0x100) as u8,
    ]
}

/// Two bytes written at the front of anything are read back as the number.
pub proof fn law_be_u16_reads_back(n: u16, rest: Seq<u8>)
    ensures
        be_u16(be_u16_bytes(n as int) + rest) == n,
{
}

/// Four bytes written at the front of anything are read back as the number.
pub proof fn law_be_u32_reads_back(n: u32, rest: Seq<u8>)
    ensures
        be_u32(be_u32_bytes(n as int) + rest) == n,
{
}

/// Calls `byteorder::ReadBytesExt::read_u16` on the bytes: it gives the number at their
/// front, and fails where they are too few for one. Of the error nothing is stated.
#[verifier::external_body]
pub(crate) fn read_u16(bytes: &[u8]) -> (r: Result<u16, std::io::Error>)
    ensures
        match r {
            Ok(n) => bytes@.len() >= 2 && n == be_u16(bytes@),
            Err(_) => bytes@.len() < 2,
        },
{
    let mut reader = bytes;
    reader.read_u16::<BigEndian>()
}

/// Calls `byteorder::ReadBytesExt::read_u32` on the bytes: it gives the number at their
/// front, and fails where they are too few for one. Of the error nothing is stated.
#[verifier::external_body]
pub(crate) fn read_u32(bytes: &[u8]) -> (r: Result<u32, std::io::Error>)
    ensures
        match r {
            Ok(n) => bytes@.len() >= 4 && n == be_u32(bytes@),
            Err(_) => bytes@.len() < 4,
        },
{
    let mut reader = bytes;
    reader.read_u32::<BigEndian>()
}

/// Calls `byteorder::WriteBytesExt::write_u16` on a vector of bytes, which takes every
/// write: the two bytes go to its end.
#[verifier::external_body]
pub(crate) fn write_u16(out: &mut Vec<u8>, n: u16)
    ensures
        final(out)@ == old(out)@ + be_u16_bytes(n as int),
{
    out.write_u16::<BigEndian>(n).unwrap()
}

/// Calls `byteorder::WriteBytesExt::write_u32` on a vector of bytes, which takes every
/// write: the four bytes go to its end.
#[verifier::external_body]
pub(crate) fn write_u32(out: &mut Vec<u8>, n: u32)
    ensures
        final(out)@ == old(out)@ + be_u32_bytes(n as int),
{
    out.write_u32::<BigEndian>(n).unwrap()
}

/// Whether `FromUtf8Error::as_bytes` hands out these bytes.
pub open spec fn holds_bytes(error: std::string::FromUtf8Error, bytes: Seq<u8>) -> bool {
    forall|b: &[u8]| #[trigger]
        call_ensures(std::string::FromUtf8Error::as_bytes, (&error,), b) ==> b@ == bytes
}

/// `FromUtf8Error::as_bytes` hands out bytes. Which they are is stated where the error is
/// made.
pub assume_specification[ std::string::FromUtf8Error::as_bytes ](
    error: &std::string::FromUtf8Error,
) -> (bytes: &[u8])
;

/// `String::from_utf8` succeeds on valid UTF-8 and on nothing else; the text is what the
/// bytes encode. The error keeps the bytes, and `FromUtf8Error::as_bytes` hands them out.
pub assume_specification[ String::from_utf8 ](vec: Vec<u8>) -> (r: Result<
    String,
    std::string::FromUtf8Error,
>)
    ensures
        match r {
            Ok(text) => valid_utf8(vec@) && text@ == decode_utf8(vec@),
            Err(e) => !valid_utf8(vec@) && holds_bytes(e, vec@),
        },
;

/// What `flate2::read::ZlibDecoder` reads out of a zlib stream, where it does not fail.
pub uninterp spec fn zlib_inflated(stream: Seq<u8>) -> Option<Seq<u8>>;

/// Reads a zlib stream to its end with `flate2::read::ZlibDecoder`. Success and contents
/// depend on the stream alone; of the error nothing is stated.
#[verifier::external_body]
fn zlib_to_end(stream: &[u8]) -> (r: Result<Vec<u8>, std::io::Error>)
    ensures
        match r {
            Ok(bytes) => zlib_inflated(stream@) == Some(bytes@),
            Err(_) => zlib_inflated(stream@) is None,
        },
{
    let mut bytes = Vec::new();
    flate2::read::ZlibDecoder::new(stream).read_to_end(&mut bytes)?;
    Ok(bytes)
}

/// What `brotli::Decompressor`, with a buffer as long as the stream, reads out of a brotli
/// stream, where it does not fail.
pub uninterp spec fn brotli_inflated(stream: Seq<u8>) -> Option<Seq<u8>>;

/// Reads a brotli stream to its end with `brotli::Decompressor`, whose buffer is as long as
/// the stream. Success and contents depend on the stream alone; of the error nothing is
/// stated.
#[verifier::external_body]
fn brotli_to_end(stream: &[u8]) -> (r: Result<Vec<u8>, std::io::Error>)
    ensures
        match r {
            Ok(bytes) => brotli_inflated(stream@) == Some(bytes@),
            Err(_) => brotli_inflated(stream@) is None,
        },
{
    let mut bytes = Vec::new();
    brotli::Decompressor::new(stream, stream.len()).read_to_end(&mut bytes)?;
    Ok(bytes)
}

/// What an error of reading can come from.
pub enum IoCause {
    /// A zlib stream did not decompress.
    Zlib(Seq<u8>),
    /// A brotli stream did not decompress.
    Brotli(Seq<u8>),
    /// There were too few bytes for a number.
    ShortNumber(Seq<u8>),
}

impl IoCause {
    /// Whether the error is one that came back when these very bytes were read.
    pub closed spec fn gave(self, error: std::io::Error) -> bool {
        match self {
            IoCause::Zlib(stream) => exists|s: &[u8]|
                s@ == stream && #[trigger] call_ensures(zlib_to_end, (s,), Err(error)),
            IoCause::Brotli(stream) => exists|s: &[u8]|
                s@ == stream && #[trigger] call_ensures(brotli_to_end, (s,), Err(error)),
            IoCause::ShortNumber(bytes) => exists|s: &[u8]|
                s@ == bytes && #[trigger] call_ensures(read_u32, (s,), Err(error)),
        }
    }
}

/// Decompresses a zlib stream. An error is handed on as it came.
pub(crate) fn inflate_zlib(stream: &[u8]) -> (r: Result<Vec<u8>, std::io::Error>)
    ensures
        match r {
            Ok(bytes) => zlib_inflated(stream@) == Some(bytes@),
            Err(e) => zlib_inflated(stream@) is None && IoCause::Zlib(stream@).gave(e),
        },
{
    let r = zlib_to_end(stream);
    assert(call_ensures(zlib_to_end, (stream,), r));
    r
}

/// Decompresses a brotli stream. An error is handed on as it came.
pub(crate) fn inflate_brotli(stream: &[u8]) -> (r: Result<Vec<u8>, std::io::Error>)
    ensures
        match r {
            Ok(bytes) => brotli_inflated(stream@) == Some(bytes@),
            Err(e) => brotli_inflated(stream@) is None && IoCause::Brotli(stream@).gave(e),
        },
{
    let r = brotli_to_end(stream);
    assert(call_ensures(brotli_to_end, (stream,), r));
    r
}

/// Reads the number at the front. An error is handed on as it came.
pub(crate) fn leading_number(bytes: &[u8]) -> (r: Result<u32, std::io::Error>)
    ensures
        match r {
            Ok(n) => bytes@.len() >= 4 && n == be_u32(bytes@),
            Err(e) => bytes@.len() < 4 && IoCause::ShortNumber(bytes@).gave(e),
        },
{
    let r = read_u32(bytes);
    assert(call_ensures(read_u32, (bytes,), r));
    r
}

/// Whether the error is one that came back when these very bytes were taken for text, and
/// keeps them.
pub open spec fn utf8_gave(bytes: Seq<u8>, error: std::string::FromUtf8Error) -> bool {
    &&& holds_bytes(error, bytes)
    &&& exists|v: Vec<u8>|
        v@ == bytes && #[trigger] call_ensures(String::from_utf8, (v,), Err(error))
}

/// Takes bytes for text. An error is handed on as it came.
pub(crate) fn text_of(bytes: &[u8]) -> (r: Result<String, std::string::FromUtf8Error>)
    ensures
        match r {
            Ok(text) => valid_utf8(bytes@) && text@ == decode_utf8(bytes@),
            Err(e) => !valid_utf8(bytes@) && utf8_gave(bytes@, e),
        },
{
    let vec = slice_to_vec(bytes);
    let ghost copy = vec;
    let r = String::from_utf8(vec);
    assert(call_ensures(String::from_utf8, (copy,), r));
    r
}

/// Bytes come in the order of their weight, each weighing 256 times the next.
pub proof fn law_first_byte_weighs_most(a: u8, b: u8, c: u8, d: u8, rest: Seq<u8>)
    ensures
        be_u16(seq![a, b] + rest) == a * 256 + b,
        be_u32(seq![a, b, c, d] + rest) == ((a * 256 + b) * 256 + c) * 256 + d,
        be_u16_bytes(a * 256 + b) == seq![a, b],
        be_u32_bytes(((a * 256 + b) * 256 + c) * 256 + d) == seq![a, b, c, d],
{
    assert(be_u16_bytes(a * 256 + b) =~= seq![a, b]);
    assert(be_u32_bytes(((a * 256 + b) * 256 + c) * 256 + d) =~= seq![a, b, c, d]);
}

/// An error that bytes gave is what the decompressor, or the reader of numbers, returned on
/// those bytes.
proof fn law_error_is_the_one_returned(bytes: Seq<u8>, error: std::io::Error)
    ensures
        IoCause::Zlib(bytes).gave(error) ==> exists|s: &[u8]|
            s@ == bytes && #[trigger] call_ensures(zlib_to_end, (s,), Err(error)),
        IoCause::Brotli(bytes).gave(error) ==> exists|s: &[u8]|
            s@ == bytes && #[trigger] call_ensures(brotli_to_end, (s,), Err(error)),
        IoCause::ShortNumber(bytes).gave(error) ==> exists|s: &[u8]|
            s@ == bytes && #[trigger] call_ensures(read_u32, (s,), Err(error)),
{
}

/// An error that bytes gave when they were taken for text is what `String::from_utf8`
/// returned on them, and hands them out.
pub proof fn law_encoding_error_keeps_the_bytes(
    bytes: Seq<u8>,
    error: std::string::FromUtf8Error,
    kept: &[u8],
)
    requires
        utf8_gave(bytes, error),
        call_ensures(std::string::FromUtf8Error::as_bytes, (&error,), kept),
    ensures
        kept@ == bytes,
        !valid_utf8(bytes),
        exists|v: Vec<u8>|
            v@ == bytes && #[trigger] call_ensures(String::from_utf8, (v,), Err(error)),
{
}

} // verus!
