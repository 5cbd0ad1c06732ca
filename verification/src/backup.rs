//! Framing of compressed state backups: a serialized state is stored zlib-compressed, and a
//! backup is read back from either compressed or plain serialized bytes.

use vstd::prelude::*;
use vstd::string::StringSliceAdditionalSpecFns;
use vstd::utf8::encode_utf8;
use base64::Engine;
use crate::text::{is_white_space, trim};

verus! {

/// The zlib stream that `miniz_oxide::deflate::compress_to_vec_zlib` makes of `data` at `level`.
pub uninterp spec fn zlib_compressed(data: Seq<u8>, level: u8) -> Seq<u8>;

/// What `miniz_oxide::inflate::decompress_to_vec_zlib` gives back from `data`: the
/// decompressed bytes, or `None` when `data` is no complete zlib stream.
pub uninterp spec fn zlib_decompressed(data: Seq<u8>) -> Option<Seq<u8>>;

/// `miniz_oxide::inflate::DecompressError`, carried through unchanged.
#[verifier::external_type_specification]
#[verifier::external_body]
pub struct ExDecompressError(miniz_oxide::inflate::DecompressError);

/// `miniz_oxide::deflate::compress_to_vec_zlib`: compresses `input` into a zlib stream.
/// The result is named by `zlib_compressed`; the contract adds that decompressing it gives
/// `input` back, the lossless round trip that the crate documents and tests.
#[verifier::external_body]
fn compress_to_vec_zlib(input: &[u8], level: u8) -> (out: Vec<u8>)
    ensures
        out@ == zlib_compressed(input@, level),
        zlib_decompressed(out@) == Some(input@),
{
    miniz_oxide::deflate::compress_to_vec_zlib(input, level)
}

/// `miniz_oxide::inflate::decompress_to_vec_zlib`: decompresses a zlib stream, with no bound
/// on the size of the output. Success and the bytes returned are named by `zlib_decompressed`.
#[verifier::external_body]
fn decompress_to_vec_zlib(input: &[u8]) -> (out: Result<Vec<u8>, miniz_oxide::inflate::DecompressError>)
    ensures
        match out {
            Ok(v) => zlib_decompressed(input@) == Some(v@),
            Err(_) => zlib_decompressed(input@) is None,
        },
{
    miniz_oxide::inflate::decompress_to_vec_zlib(input)
}

/// The compression level of backups.
pub const BACKUP_COMPRESSION_LEVEL: u8 = 6;

/// The serialized state that a backup holds: the decompressed bytes of a zlib stream, or
/// the bytes themselves when they are no zlib stream.
pub open spec fn backup_payload(bytes: Seq<u8>) -> Seq<u8> {
    match zlib_decompressed(bytes) {
        Some(d) => d,
        None => bytes,
    }
}

/// Compresses serialized state bytes into a backup; reading the backup gives the bytes back.
pub fn compress_backup(serialized: &[u8]) -> (backup: Vec<u8>)
    ensures
        backup@ == zlib_compressed(serialized@, BACKUP_COMPRESSION_LEVEL),
        zlib_decompressed(backup@) == Some(serialized@),
        backup_payload(backup@) == serialized@,
{
    compress_to_vec_zlib(serialized, BACKUP_COMPRESSION_LEVEL)
}

/// Picks the serialized state out of a backup, given what decompression gave: the
/// decompressed bytes when there are some, else the raw bytes.
pub fn payload_from(raw: &[u8], decompressed: Option<Vec<u8>>) -> (payload: Vec<u8>)
    ensures
        payload@ == match decompressed {
            Some(d) => d@,
            None => raw@,
        },
{
    match decompressed {
        Some(d) => d,
        None => vstd::slice::slice_to_vec(raw),
    }
}

/// The serialized state inside a backup of either form.
pub fn read_backup(bytes: &[u8]) -> (payload: Vec<u8>)
    ensures
        payload@ == backup_payload(bytes@),
{
    let decompressed = match decompress_to_vec_zlib(bytes) {
        Ok(v) => Some(v),
        Err(_) => None,
    };
    payload_from(bytes, decompressed)
}

// ---------------------------------------------------------------------------------------
// Backups as base64 text
// ---------------------------------------------------------------------------------------

/// What base64 STANDARD decoding gives of the bytes `text`, or `None` when they are no valid
/// padded base64 text.
pub uninterp spec fn base64_decoded(text: Seq<u8>) -> Option<Seq<u8>>;

/// The padded base64 STANDARD encoding of `bytes`.
pub uninterp spec fn base64_encoded(bytes: Seq<u8>) -> Seq<char>;

/// `base64::DecodeError`, carried through unchanged.
#[verifier::external_type_specification]
#[verifier::external_body]
pub struct ExBase64DecodeError(base64::DecodeError);

/// A character of the base64 STANDARD alphabet, or the padding `=`.
pub open spec fn is_base64_char(c: char) -> bool {
    ||| 'A' <= c && c <= 'Z'
    ||| 'a' <= c && c <= 'z'
    ||| '0' <= c && c <= '9'
    ||| c == '+'
    ||| c == '/'
    ||| c == '='
}

/// Whether the padded base64 text of `n` bytes has a length that fits in `usize`: four
/// characters for each full or partial group of three bytes.
pub open spec fn encoded_len_fits(n: nat) -> bool {
    (n / 3) * 4 + (if n % 3 > 0 {
        4int
    } else {
        0int
    }) <= usize::MAX
}

/// `base64::engine::general_purpose::STANDARD.decode`: decodes padded base64 text.
/// Success and the bytes returned are named by `base64_decoded`.
#[verifier::external_body]
fn decode_base64(text: &[u8]) -> (out: Result<Vec<u8>, base64::DecodeError>)
    ensures
        match out {
            Ok(v) => base64_decoded(text@) == Some(v@),
            Err(_) => base64_decoded(text@) is None,
        },
{
    base64::engine::general_purpose::STANDARD.decode(text)
}

/// `base64::engine::general_purpose::STANDARD.encode`: the padded base64 text of `bytes`,
/// named by `base64_encoded`. The contract adds that the text is made of the STANDARD
/// alphabet and `=`, and that decoding it gives `bytes` back, as the crate documents and
/// tests. The call panics when the length of the text overflows `usize`; that input is
/// left out.
#[verifier::external_body]
fn encode_base64(bytes: &[u8]) -> (text: String)
    requires
        encoded_len_fits(bytes@.len()),
    ensures
        text@ == base64_encoded(bytes@),
        forall|i: int| 0 <= i < text@.len() ==> is_base64_char(#[trigger] text@[i]),
        base64_decoded(encode_utf8(text@)) == Some(bytes@),
{
    base64::engine::general_purpose::STANDARD.encode(bytes)
}

/// Reads a backup pasted as base64 text: the text is trimmed and decoded, and the
/// serialized state is taken out of the decoded backup.
pub fn backup_from_text(text: &str) -> (res: Result<Vec<u8>, base64::DecodeError>)
    ensures
        match res {
            Ok(p) => base64_decoded(encode_utf8(trim(text@))) matches Some(d) && p@
                == backup_payload(d),
            Err(_) => base64_decoded(encode_utf8(trim(text@))) is None,
        },
{
    let trimmed = crate::text::trim_str(text);
    let bytes = trimmed.as_str().as_bytes();
    match decode_base64(bytes) {
        Ok(decoded) => Ok(read_backup(&decoded)),
        Err(e) => Err(e),
    }
}

/// A backup as base64 text: the serialized state is compressed and the backup encoded.
/// `None` when the text would be too long to index; reading the text back with
/// `backup_from_text` gives the serialized state.
pub fn backup_text(serialized: &[u8]) -> (t: Option<String>)
    ensures
        match t {
            Some(s) => {
                &&& encoded_len_fits(zlib_compressed(serialized@, BACKUP_COMPRESSION_LEVEL).len())
                &&& s@ == base64_encoded(zlib_compressed(serialized@, BACKUP_COMPRESSION_LEVEL))
                &&& base64_decoded(encode_utf8(trim(s@))) == Some(
                    zlib_compressed(serialized@, BACKUP_COMPRESSION_LEVEL),
                )
                &&& backup_payload(zlib_compressed(serialized@, BACKUP_COMPRESSION_LEVEL))
                    == serialized@
            },
            None => !encoded_len_fits(
                zlib_compressed(serialized@, BACKUP_COMPRESSION_LEVEL).len(),
            ),
        },
{
    let backup = compress_backup(serialized);
    let n = backup.len();
    let chunks = n / 3;
    let tail: usize = if n % 3 > 0 {
        4
    } else {
        0
    };
    let full = match chunks.checked_mul(4) {
        Some(f) => f,
        None => {
            return None;
        },
    };
    if full.checked_add(tail).is_none() {
        return None;
    }
    let s = encode_base64(backup.as_slice());
    proof {
        if s@.len() > 0 {
            assert(is_base64_char(s@[0]));
            assert(is_base64_char(s@[s@.len() - 1]));
            assert(!is_white_space(s@[0]));
            assert(!is_white_space(s@.last()));
        }
        crate::round_trip::lemma_trim_unchanged(s@);
    }
    Some(s)
}

} // verus!
