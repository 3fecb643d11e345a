//! Commitments: tagged hashing of canonical bytes, and the identifiers which come of it.

use baid64::Baid64Display;
use commit_verify::{DigestExt, Sha256};
use vstd::prelude::*;
use vstd::string::StringSliceAdditionalSpecFns;

verus! {

/// Human-readable part which is proper to the identifiers of this library.
pub const HRI: &'static str = "sonic";

/// Length of the first chunk of the textual form of an identifier.
pub const CHUNK_FIRST: usize = 8;

/// Length of the following chunks of the textual form of an identifier.
pub const CHUNK_LEN: usize = 7;

/// Number of characters of the Baid64 form of 32 bytes, before chunking.
pub const BAID64_LEN: usize = 43;

/// Largest length which Baid64 admits for a human-readable part.
pub const HRI_MAX_LEN: usize = 16;

/// The SHA-256 digest of a string of bytes: 32 bytes.
pub uninterp spec fn sha256(data: Seq<u8>) -> Seq<u8>;

/// The Baid64 text of a payload of 32 bytes, for the given human-readable part and choices of
/// form.
pub uninterp spec fn baid64_text(
    hri: Seq<char>,
    payload: Seq<u8>,
    chunking: bool,
    chunk_first: nat,
    chunk_len: nat,
    prefix: bool,
    mnemonic: bool,
    embed_checksum: bool,
) -> Seq<char>;

/// The digest of `data` under a tag: SHA-256 over the digest of the tag, taken twice, and then
/// the data.
pub open spec fn tagged_digest(tag: Seq<u8>, data: Seq<u8>) -> Seq<u8> {
    sha256(sha256(tag) + sha256(tag) + data)
}

/// The tagged hasher of `commit_verify`, from `DigestExt::from_tag` over `DigestExt::input_raw`
/// to `DigestExt::finish`: the hasher starts by taking in the SHA-256 digest of the tag twice,
/// takes in the data after it, and gives the SHA-256 digest of all it has taken in.
#[verifier::external_body]
fn tagged_sha256(tag: &str, data: &[u8]) -> (digest: [u8; 32])
    ensures
        digest@ == sha256(sha256(tag.spec_bytes()) + sha256(tag.spec_bytes()) + data@),
{
    let mut engine = Sha256::from_tag(tag);
    engine.input_raw(data);
    engine.finish()
}

/// `Baid64Display::with` of Baid64, rendered by its `Display`: the text of the payload. The
/// human-readable part may not be longer than 16 bytes, the first chunk not longer than the
/// unchunked text, and no chunk may be empty. Without prefix and mnemonic the text is made of
/// the characters of the Baid64 alphabet and of hyphens, so that it holds neither a colon nor a
/// slash.
#[verifier::external_body]
fn baid64_string(
    hri: &'static str,
    payload: [u8; 32],
    chunking: bool,
    chunk_first: usize,
    chunk_len: usize,
    prefix: bool,
    mnemonic: bool,
    embed_checksum: bool,
) -> (text: String)
    requires
        hri.spec_bytes().len() <= HRI_MAX_LEN,
        chunk_first <= BAID64_LEN,
        chunk_len > 0,
    ensures
        text@ == baid64_text(
            hri@,
            payload@,
            chunking,
            chunk_first as nat,
            chunk_len as nat,
            prefix,
            mnemonic,
            embed_checksum,
        ),
        !prefix && !mnemonic ==> !text@.contains(':') && !text@.contains('/'),
{
    let display = Baid64Display::with(
        hri,
        payload,
        chunking,
        chunk_first,
        chunk_len,
        prefix,
        mnemonic,
        embed_checksum,
    );
    display.to_string()
}

/// The identifier which commits to `data` under `tag`.
pub fn commit_bytes(tag: &str, data: &[u8]) -> (id: [u8; 32])
    ensures
        id@ == tagged_digest(tag.spec_bytes(), data@),
{
    tagged_sha256(tag, data)
}

/// The text of an identifier, as all identifiers of this library are written: in chunks,
/// without prefix, checksum or mnemonic.
pub open spec fn id_text(bytes: Seq<u8>) -> Seq<char> {
    baid64_text(HRI@, bytes, true, CHUNK_FIRST as nat, CHUNK_LEN as nat, false, false, false)
}

/// Writes an identifier as text. The text holds neither a colon nor a slash.
pub fn id_to_string(bytes: &[u8; 32]) -> (text: String)
    ensures
        text@ == id_text(bytes@),
        !text@.contains(':'),
        !text@.contains('/'),
{
    proof {
        reveal_strlit("sonic");
        lemma_hri_len();
    }
    baid64_string(HRI, *bytes, true, CHUNK_FIRST, CHUNK_LEN, false, false, false)
}

/// The human-readable part is five bytes long.
proof fn lemma_hri_len()
    ensures
        HRI.spec_bytes().len() == 5,
{
    reveal_strlit("sonic");
    vstd::string::is_ascii_spec_bytes(HRI);
    assert(vstd::string::is_ascii(HRI)) by {
        reveal_strlit("sonic");
    }
}

} // verus!
