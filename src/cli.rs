//! Checks on command-line values.
use vstd::prelude::*;
use vstd::utf8::encode_utf8;
use crate::text::{parse_unsigned, unsigned_value};

verus! {

/// Maximum length in bytes of a team or service name.
pub const MAX_NAME_LEN: usize = 2048;

/// A team or service name is at most 2048 bytes long in UTF-8.
pub fn validate_name(name: String) -> (r: Result<(), String>)
    ensures
        r is Ok <==> (encode_utf8(name@).len() as usize) <= MAX_NAME_LEN,
        r matches Err(t) ==> t@ == "Provided name is too long"@,
{
    if name.as_str().len() > MAX_NAME_LEN {
        return Err(String::from_str("Provided name is too long"));
    }
    Ok(())
}

/// A port is an unsigned decimal number below 65536.
pub fn validate_port(port: String) -> (r: Result<(), String>)
    ensures
        r is Ok <==> unsigned_value(port@, 65535) is Some,
        r matches Err(t) ==> t@ == "Bad port provided"@,
{
    match parse_unsigned(port.as_str(), 65535) {
        Some(_) => Ok(()),
        None => Err(String::from_str("Bad port provided")),
    }
}

/// A TTL is an unsigned decimal number that fits in 64 bits.
pub fn validate_ttl(interval: String) -> (r: Result<(), String>)
    ensures
        r is Ok <==> unsigned_value(interval@, 0xffff_ffff_ffff_ffff) is Some,
        r matches Err(t) ==> t@ == "Bad TTL value provided"@,
{
    match parse_unsigned(interval.as_str(), 0xffff_ffff_ffff_ffff) {
        Some(_) => Ok(()),
        None => Err(String::from_str("Bad TTL value provided")),
    }
}

} // verus!
