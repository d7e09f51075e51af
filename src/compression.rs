//! Compression of the serialized GELF document: none, gzip or zlib.
use vstd::prelude::*;
use vstd::utf8::encode_utf8;
use crate::errors::Error;
use crate::text::str_eq;
use crate::wire::{gelf_text, WireMessage, WireView};

verus! {

#[verifier::external_type_specification]
#[verifier::external_body]
pub struct ExIoError(std::io::Error);

/// The zlib stream, at default settings, of `b`.
pub uninterp spec fn zlib_of(b: Seq<u8>) -> Seq<u8>;

/// The gzip stream, at default settings, of `b`, with `mtime` as the
/// modification time in its header.
pub uninterp spec fn gzip_of(b: Seq<u8>, mtime: u32) -> Seq<u8>;

/// MessageCompression represents all possible compression algorithms in GELF.
#[derive(Debug, PartialEq, Eq, Structural, Clone, Copy)]
pub enum MessageCompression {
    Uncompressed,
    Gzip,
    Zlib,
}

/// The algorithm a configuration name selects; an unknown name means none.
pub open spec fn compression_of_name(s: Seq<char>) -> MessageCompression {
    if s == "gzip"@ {
        MessageCompression::Gzip
    } else if s == "zlib"@ {
        MessageCompression::Zlib
    } else {
        MessageCompression::Uncompressed
    }
}

/// Name of an algorithm.
pub open spec fn compression_name(c: MessageCompression) -> Seq<char> {
    match c {
        MessageCompression::Uncompressed => "none"@,
        MessageCompression::Gzip => "gzip"@,
        MessageCompression::Zlib => "zlib"@,
    }
}

/// Relies on libflate::gzip::Encoder at default settings, writing into a
/// Vec, which never fails: the gzip stream of `data`, whose header carries
/// the time of the call in seconds.
#[verifier::external_body]
fn gzip_encode(data: &[u8]) -> (r: Result<Vec<u8>, std::io::Error>)
    ensures
        r is Ok,
        r matches Ok(b) ==> exists|t: u32| b@ == #[trigger] gzip_of(data@, t),
{
    let mut encoder = libflate::gzip::Encoder::new(Vec::new())?;
    std::io::Write::write_all(&mut encoder, data)?;
    encoder.finish().into_result()
}

/// Relies on libflate::zlib::Encoder at default settings, writing into a
/// Vec, which never fails: the zlib stream of `data`.
#[verifier::external_body]
fn zlib_encode(data: &[u8]) -> (r: Result<Vec<u8>, std::io::Error>)
    ensures
        r is Ok,
        r matches Ok(b) ==> b@ == zlib_of(data@),
{
    let mut encoder = libflate::zlib::Encoder::new(Vec::new())?;
    std::io::Write::write_all(&mut encoder, data)?;
    encoder.finish().into_result()
}

/// Relies on std::io::Error's Display: a description of the error.
#[verifier::external_body]
fn io_error_text(e: &std::io::Error) -> (r: String) {
    e.to_string()
}

/// Whether `b` is what `c` makes of the bytes `data`: the bytes themselves,
/// their zlib stream, or their gzip stream stamped with some time.
pub open spec fn compressed_bytes(c: MessageCompression, data: Seq<u8>, b: Seq<u8>) -> bool {
    match c {
        MessageCompression::Uncompressed => b == data,
        MessageCompression::Zlib => b == zlib_of(data),
        MessageCompression::Gzip => exists|t: u32| b == #[trigger] gzip_of(data, t),
    }
}

/// Whether `b` is what `c` makes of the GELF document of `w`, written at
/// some moment.
pub open spec fn compressed_as(c: MessageCompression, w: WireView, b: Seq<u8>) -> bool {
    exists|now: u64| compressed_bytes(c, encode_utf8(#[trigger] gelf_text(w, now as nat)), b)
}

impl MessageCompression {
    /// The algorithm a configuration name selects: `gzip`, `zlib`, anything
    /// else none.
    pub fn from_name(algorithm: &str) -> (r: MessageCompression)
        ensures
            r == compression_of_name(algorithm@),
    {
        if str_eq(algorithm, "gzip") {
            MessageCompression::Gzip
        } else if str_eq(algorithm, "zlib") {
            MessageCompression::Zlib
        } else {
            MessageCompression::Uncompressed
        }
    }

    /// Return the default compression algorithm.
    pub fn default() -> (r: MessageCompression)
        ensures
            r == MessageCompression::Gzip,
    {
        MessageCompression::Gzip
    }

    /// Name of the algorithm.
    pub fn name(&self) -> (r: &'static str)
        ensures
            r@ == compression_name(*self),
    {
        match *self {
            MessageCompression::Uncompressed => "none",
            MessageCompression::Gzip => "gzip",
            MessageCompression::Zlib => "zlib",
        }
    }

    /// Compress a serialized document: its UTF-8 bytes, as they are or as
    /// a zlib or gzip stream.
    pub fn compress_text(&self, json: &str) -> (r: Result<Vec<u8>, Error>)
        ensures
            r matches Ok(b) && compressed_bytes(*self, encode_utf8(json@), b@),
    {
        let bytes = json.as_bytes_vec();
        match *self {
            MessageCompression::Uncompressed => Ok(bytes),
            MessageCompression::Gzip => match gzip_encode(bytes.as_slice()) {
                Ok(b) => Ok(b),
                Err(e) => Err(Error::IOError(io_error_text(&e))),
            },
            MessageCompression::Zlib => match zlib_encode(bytes.as_slice()) {
                Ok(b) => Ok(b),
                Err(e) => Err(Error::IOError(io_error_text(&e))),
            },
        }
    }

    /// Compress the GELF document of a message, as `compress_text` does;
    /// a missing timestamp is filled with the current time.
    pub fn compress(&self, message: &WireMessage) -> (r: Result<Vec<u8>, Error>)
        ensures
            r matches Ok(b) && compressed_as(*self, message@, b@),
    {
        let ghost w = message@;
        let json = message.to_gelf();
        let ghost now = choose|now: u64| json@ == gelf_text(w, now as nat);
        let r = self.compress_text(json.as_str());
        assert(compressed_bytes(*self, encode_utf8(gelf_text(w, now as nat)), r.unwrap()@));
        r
    }
}

} // verus!
