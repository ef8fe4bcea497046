//! The layout of a packed image:
//! `[stub][magic][password digest: 32 bytes][meta length: u32 LE][meta][payload length: u64 LE][payload][magic][stub length: u32 LE]`.
//! A digest of zeros marks an image without password; the packer writes such
//! images.

use vstd::prelude::*;
use vstd::bytes::{
    spec_u32_from_le_bytes, spec_u32_to_le_bytes, spec_u64_from_le_bytes, spec_u64_to_le_bytes,
    lemma_auto_spec_u32_to_from_le_bytes, lemma_auto_spec_u64_to_from_le_bytes,
};
use vstd::slice::slice_to_vec;
use crate::extractor::{footer_offset_spec, parse_footer_spec, check_section_spec};

verus! {

/// Length of the signature that opens the container section and the footer.
pub const MAGIC_LEN: usize = 22;

/// Length of a 32-bit length field.
pub const LEN32: usize = 4;

/// Length of the 64-bit payload length field.
pub const LEN64: usize = 8;

/// Length of the footer: the signature followed by the stub length.
pub const FOOTER_LEN: usize = 26;

/// The signature `FLUXI_FLUXIONICS_V100` followed by a NUL byte.
pub open spec fn magic() -> Seq<u8> {
    seq![
        70u8, 76u8, 85u8, 88u8, 73u8, 95u8, 70u8, 76u8, 85u8, 88u8, 73u8,
        79u8, 78u8, 73u8, 67u8, 83u8, 95u8, 86u8, 49u8, 48u8, 48u8, 0u8,
    ]
}

/// The signature as bytes.
pub fn magic_bytes() -> (m: Vec<u8>)
    ensures
        m@ == magic(),
{
    let m: Vec<u8> = vec![
        70u8, 76u8, 85u8, 88u8, 73u8, 95u8, 70u8, 76u8, 85u8, 88u8, 73u8,
        79u8, 78u8, 73u8, 67u8, 83u8, 95u8, 86u8, 49u8, 48u8, 48u8, 0u8,
    ];
    assert(m@ =~= magic());
    m
}

/// Whether the signature starts at `start` in `bytes`.
pub fn has_magic_at(bytes: &[u8], start: usize) -> (r: bool)
    requires
        start + MAGIC_LEN <= bytes@.len(),
    ensures
        r == (bytes@.subrange(start as int, start + MAGIC_LEN) == magic()),
{
    let m = magic_bytes();
    let mut i: usize = 0;
    while i < MAGIC_LEN
        invariant
            m@ == magic(),
            start + MAGIC_LEN <= bytes.len(),
            i <= MAGIC_LEN,
            forall|k: int| 0 <= k < i ==> bytes@[start + k] == magic()[k],
        decreases MAGIC_LEN - i,
    {
        if bytes[start + i] != m[i] {
            assert(bytes@.subrange(start as int, start + MAGIC_LEN)[i as int] != magic()[i as int]);
            return false;
        }
        i += 1;
    }
    assert(bytes@.subrange(start as int, start + MAGIC_LEN) =~= magic());
    true
}

/// The whole image for a stub, a stored password digest, a metadata record
/// and a payload.
pub open spec fn image_layout(stub: Seq<u8>, digest: Seq<u8>, meta: Seq<u8>, payload: Seq<u8>) -> Seq<u8> {
    stub + magic() + digest + spec_u32_to_le_bytes(meta.len() as u32) + meta
        + spec_u64_to_le_bytes(payload.len() as u64) + payload + magic() + spec_u32_to_le_bytes(
        stub.len() as u32,
    )
}

/// The digest stored by an image without password: 32 zero bytes.
pub open spec fn open_digest() -> Seq<u8> {
    Seq::new(crate::hash::DIGEST_LEN as nat, |i: int| 0u8)
}

/// Everything the packer writes before the payload.
pub open spec fn pack_header_layout(stub: Seq<u8>, meta: Seq<u8>, payload_len: u64) -> Seq<u8> {
    stub + magic() + open_digest() + spec_u32_to_le_bytes(meta.len() as u32) + meta
        + spec_u64_to_le_bytes(payload_len)
}

/// Everything the packer writes after the payload.
pub open spec fn pack_footer_layout(stub_len: nat) -> Seq<u8> {
    magic() + spec_u32_to_le_bytes(stub_len as u32)
}

/// The whole image the packer writes for a stub, a metadata record and a
/// payload: header, payload, footer.
pub open spec fn packed_image(stub: Seq<u8>, meta: Seq<u8>, payload: Seq<u8>) -> Seq<u8> {
    pack_header_layout(stub, meta, payload.len() as u64) + payload + pack_footer_layout(stub.len())
}

/// What the packer writes is the image layout with the open digest.
pub proof fn lemma_packed_image_layout(stub: Seq<u8>, meta: Seq<u8>, payload: Seq<u8>)
    ensures
        packed_image(stub, meta, payload) == image_layout(stub, open_digest(), meta, payload),
{
    assert(packed_image(stub, meta, payload) =~= image_layout(stub, open_digest(), meta, payload));
}

fn append_bytes(out: &mut Vec<u8>, bytes: &[u8])
    ensures
        final(out)@ == old(out)@ + bytes@,
{
    let mut tail = slice_to_vec(bytes);
    out.append(&mut tail);
}

/// The bytes written before the payload: stub, signature, the open digest
/// (no password), metadata length, metadata and payload length.  The metadata
/// length field holds the length truncated to 32 bits.
pub fn pack_header(stub: &[u8], meta: &[u8], payload_len: u64) -> (header: Vec<u8>)
    ensures
        header@ == pack_header_layout(stub@, meta@, payload_len),
{
    let mut out = slice_to_vec(stub);
    let mut m = magic_bytes();
    out.append(&mut m);
    let mut digest: Vec<u8> = vec![0u8; crate::hash::DIGEST_LEN];
    assert(digest@ =~= open_digest());
    out.append(&mut digest);
    let mut len_field = vstd::bytes::u32_to_le_bytes(meta.len() as u32);
    out.append(&mut len_field);
    append_bytes(&mut out, meta);
    let mut size_field = vstd::bytes::u64_to_le_bytes(payload_len);
    out.append(&mut size_field);
    out
}

/// The bytes written after the payload: the signature and the stub length,
/// truncated to 32 bits.
pub fn pack_footer(stub_len: usize) -> (footer: Vec<u8>)
    ensures
        footer@ == pack_footer_layout(stub_len as nat),
        footer@.len() == FOOTER_LEN,
{
    proof {
        lemma_auto_spec_u32_to_from_le_bytes();
    }
    let mut out = magic_bytes();
    let mut len_field = vstd::bytes::u32_to_le_bytes(stub_len as u32);
    out.append(&mut len_field);
    out
}

// ---------------------------------------------------------------------------
// Laws of the layout

/// Reading back an image: following the offsets that the footer and the
/// length fields announce yields the stub length, the signature, the stored
/// digest, the metadata record and the payload that were laid out.
pub proof fn lemma_image_reads_back(
    stub: Seq<u8>,
    digest: Seq<u8>,
    meta: Seq<u8>,
    payload: Seq<u8>,
)
    requires
        stub.len() <= u32::MAX,
        digest.len() == crate::hash::DIGEST_LEN,
        meta.len() <= u32::MAX,
        payload.len() <= u64::MAX,
        image_layout(stub, digest, meta, payload).len() <= u64::MAX,
    ensures
        ({
            let image = image_layout(stub, digest, meta, payload);
            let start = image.len() - FOOTER_LEN;
            let s = stub.len() as int;
            let digest_at = s + MAGIC_LEN;
            let meta_len_at = digest_at + crate::hash::DIGEST_LEN;
            let meta_at = meta_len_at + LEN32;
            let meta_len = spec_u32_from_le_bytes(image.subrange(meta_len_at, meta_at)) as int;
            let size_at = meta_at + meta_len;
            let payload_at = size_at + LEN64;
            let payload_len = spec_u64_from_le_bytes(image.subrange(size_at, payload_at)) as int;
            &&& footer_offset_spec(image.len() as u64) == Ok::<u64, crate::extractor::UnpackError>(start as u64)
            &&& parse_footer_spec(image.subrange(start, image.len() as int)) == Ok::<u64, crate::extractor::UnpackError>(stub.len() as u64)
            &&& check_section_spec(image.subrange(s, digest_at)) == Ok::<(), crate::extractor::UnpackError>(())
            &&& image.subrange(digest_at, meta_len_at) == digest
            &&& meta_len == meta.len()
            &&& image.subrange(meta_at, size_at) == meta
            &&& payload_len == payload.len()
            &&& image.subrange(payload_at, payload_at + payload_len) == payload
        }),
{
    lemma_auto_spec_u32_to_from_le_bytes();
    lemma_auto_spec_u64_to_from_le_bytes();
    let image = image_layout(stub, digest, meta, payload);
    let s = stub.len() as int;
    let digest_at = s + MAGIC_LEN;
    let meta_len_at = digest_at + 32;
    let meta_at = meta_len_at + 4;
    let size_at = meta_at + meta.len();
    let payload_at = size_at + 8;
    let footer_at = payload_at + payload.len();
    let len_field = spec_u32_to_le_bytes(meta.len() as u32);
    let size_field = spec_u64_to_le_bytes(payload.len() as u64);
    let stub_field = spec_u32_to_le_bytes(stub.len() as u32);
    assert(image.len() == footer_at + FOOTER_LEN);
    assert(image.subrange(s, digest_at) =~= magic());
    assert(image.subrange(digest_at, meta_len_at) =~= digest);
    assert(image.subrange(meta_len_at, meta_at) =~= len_field);
    assert(image.subrange(meta_at, size_at) =~= meta);
    assert(image.subrange(size_at, payload_at) =~= size_field);
    assert(image.subrange(payload_at, footer_at) =~= payload);
    let footer = image.subrange(footer_at, image.len() as int);
    assert(footer =~= magic() + stub_field);
    assert(footer.subrange(0, MAGIC_LEN as int) =~= magic());
    assert(footer.subrange(MAGIC_LEN as int, FOOTER_LEN as int) =~= stub_field);
}

} // verus!
