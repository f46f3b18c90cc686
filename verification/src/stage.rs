//! Request normalization: byte payloads become path-based requests.
//!
//! A print-by-bytes request carries its document base64-encoded.  Decoding
//! and the temporary file name are computed here; the host only writes the
//! bytes to that name under its temporary directory.

use vstd::prelude::*;
use crate::errors::Error;
use crate::options::{PrintBytesOptions, PrintOptions};
use crate::text;

verus! {

/// What standard base64 decoding yields on a text, or nothing where the text
/// is not valid base64.
pub uninterp spec fn b64_decode(s: Seq<char>) -> Option<Seq<u8>>;

/// The standard base64 encoding of a byte string.
pub uninterp spec fn b64_encode(data: Seq<u8>) -> Seq<char>;

/// Relies on the base64 crate's standard-alphabet engine `encode`: the result
/// is a function of the bytes alone, and `decode` inverts it (RFC 4648).
#[verifier::external_body]
fn base64_encode_raw(data: &Vec<u8>) -> (r: String)
    ensures
        r@ == b64_encode(data@),
        b64_decode(r@) == Some(data@),
{
    base64::Engine::encode(&base64::engine::general_purpose::STANDARD, data)
}

/// Relies on the base64 crate's standard-alphabet engine `decode`: it
/// succeeds exactly on valid standard base64, with the decoded bytes a
/// function of the text alone.
#[verifier::external_body]
fn base64_decode_raw(s: &str) -> (r: Result<Vec<u8>, String>)
    ensures
        match r {
            Ok(v) => b64_decode(s@) == Some(v@),
            Err(_) => b64_decode(s@) is None,
        },
{
    match base64::Engine::decode(&base64::engine::general_purpose::STANDARD, s) {
        Ok(v) => Ok(v),
        Err(e) => Err(e.to_string()),
    }
}

/// Encode a payload for a print-by-bytes request.
pub fn encode_payload(data: &Vec<u8>) -> (r: String)
    ensures
        r@ == b64_encode(data@),
        b64_decode(r@) == Some(data@),
{
    base64_encode_raw(data)
}

/// Decode a base64 payload; a malformed one is a read failure and nothing is
/// staged.
pub fn decode_payload(data_base64: &str) -> (r: Result<Vec<u8>, Error>)
    ensures
        match r {
            Ok(v) => b64_decode(data_base64@) == Some(v@),
            Err(e) => b64_decode(data_base64@) is None && e is ReadFailed,
        },
{
    match base64_decode_raw(data_base64) {
        Ok(v) => Ok(v),
        Err(m) => Err(Error::ReadFailed(m)),
    }
}

/// Encoding a payload and decoding it back returns the bytes unchanged.
pub fn payload_round_trip(data: &Vec<u8>) -> (r: Vec<u8>)
    ensures
        r@ == data@,
{
    let encoded = encode_payload(data);
    match decode_payload(encoded.as_str()) {
        Ok(v) => v,
        Err(_) => {
            proof {
                assert(false);
            }
            unreached()
        },
    }
}

/// The collision-resistant name of one staged file: a fixed prefix, the
/// current time in milliseconds, and the document suffix.
pub open spec fn temp_name_spec(now_ms: u64) -> Seq<char> {
    ("native-pdf-print-")@ + text::dec_rep(now_ms as nat) + (".pdf")@
}

/// Name the temporary file for a payload staged at `now_ms`.
pub fn temp_file_name(now_ms: u64) -> (r: String)
    ensures
        r@ == temp_name_spec(now_ms),
{
    let mut s = String::from_str("native-pdf-print-");
    s.append(text::fmt_u64(now_ms).as_str());
    s.append(".pdf");
    s
}

/// Normalize a print-by-bytes request: decode the payload and name the
/// temporary file (to be created under the host's temporary directory at
/// `staged_path`).  A malformed payload fails with a read error before any
/// file name is chosen.
pub fn prepare_print_bytes(options: PrintBytesOptions, staged_path: String) -> (r: Result<
    (Vec<u8>, PrintOptions),
    Error,
>)
    ensures
        match r {
            Ok(p) => {
                &&& b64_decode(options.data_base64@) == Some(p.0@)
                &&& p.1.path == staged_path
                &&& p.1.printer_name == options.printer_name
                &&& p.1.job_name == options.job_name
                &&& p.1.copies == options.copies
                &&& p.1.duplex == options.duplex
                &&& p.1.paper_size == options.paper_size
                &&& p.1.remove_after_print == options.remove_after_print
            },
            Err(e) => b64_decode(options.data_base64@) is None && e is ReadFailed,
        },
{
    let bytes = match decode_payload(options.data_base64.as_str()) {
        Ok(v) => v,
        Err(e) => {
            return Err(e);
        },
    };
    let print_options = options.into_print_options(staged_path);
    Ok((bytes, print_options))
}

} // verus!
