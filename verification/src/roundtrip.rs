//! What the extractor makes of an image written by the packer.

use vstd::prelude::*;
use vstd::bytes::{spec_u32_from_le_bytes, spec_u64_from_le_bytes};
use crate::container::{
    image_layout, lemma_image_reads_back, lemma_packed_image_layout, open_digest, packed_image,
    FOOTER_LEN, LEN32, LEN64, MAGIC_LEN,
};
use crate::extractor::{
    all_zero, check_section_spec, decode_chunk_spec, footer_offset_spec, parse_footer_spec,
    password_check_spec, payload_key_spec, UnpackError,
};
use crate::hash::DIGEST_LEN;
use crate::metadata::{
    app_name_of, encrypted_of, json_bool_member, json_text_member, last_member, object_reads_back,
    APP_NAME_KEY, ENCRYPTED_KEY,
};
use crate::packer::{number_members_spec, text_members_spec, PackConfig};

verus! {

/// The metadata record the packer writes reads back with the configured
/// application name, and marks the payload as not encrypted.
pub proof fn lemma_metadata_reads_back(
    config: PackConfig,
    original_size: u64,
    total_files: usize,
    timestamp: u64,
    meta: Seq<u8>,
)
    requires
        object_reads_back(
            meta,
            text_members_spec(config),
            number_members_spec(original_size, total_files, timestamp),
        ),
    ensures
        app_name_of(json_text_member(meta, APP_NAME_KEY@)) == config.app_name@,
        !encrypted_of(json_bool_member(meta, ENCRYPTED_KEY@)),
{
    reveal_strlit("app_name");
    reveal_strlit("app_version");
    reveal_strlit("entry_point");
    reveal_strlit("packed_by");
    reveal_strlit("brand");
    reveal_strlit("license");
    reveal_strlit("original_size");
    reveal_strlit("total_files");
    reveal_strlit("timestamp");
    let text = text_members_spec(config);
    let numbers = number_members_spec(original_size, total_files, timestamp);
    let key = APP_NAME_KEY@;
    assert(key.len() == 8);
    reveal_with_fuel(last_member, 7);
    assert(last_member(numbers, key) is None);
    assert(last_member(text, key) == Some(config.app_name@));
    assert(json_text_member(meta, key) == Some(config.app_name@));
    assert(json_bool_member(meta, ENCRYPTED_KEY@) is None);
}

/// Extracting an image written by the packer: the footer leads to the stub
/// end, the signature is found there, any password (or none) opens it, the
/// metadata record and the payload come back as written, the record names
/// the configured application, and the payload is copied without
/// deciphering.
pub proof fn lemma_packed_image_extracts(
    config: PackConfig,
    original_size: u64,
    total_files: usize,
    timestamp: u64,
    stub: Seq<u8>,
    meta: Seq<u8>,
    payload: Seq<u8>,
    password: Option<Seq<char>>,
)
    requires
        object_reads_back(
            meta,
            text_members_spec(config),
            number_members_spec(original_size, total_files, timestamp),
        ),
        stub.len() <= u32::MAX,
        meta.len() <= u32::MAX,
        packed_image(stub, meta, payload).len() <= u64::MAX,
    ensures
        ({
            let image = packed_image(stub, meta, payload);
            let start = image.len() - FOOTER_LEN;
            let s = stub.len() as int;
            let digest_at = s + MAGIC_LEN;
            let meta_len_at = digest_at + DIGEST_LEN;
            let meta_at = meta_len_at + LEN32;
            let meta_len = spec_u32_from_le_bytes(image.subrange(meta_len_at, meta_at)) as int;
            let size_at = meta_at + meta_len;
            let payload_at = size_at + LEN64;
            let payload_len = spec_u64_from_le_bytes(image.subrange(size_at, payload_at)) as int;
            let read_meta = image.subrange(meta_at, size_at);
            let encrypted = encrypted_of(json_bool_member(read_meta, ENCRYPTED_KEY@));
            &&& footer_offset_spec(image.len() as u64) == Ok::<u64, UnpackError>(start as u64)
            &&& parse_footer_spec(image.subrange(start, image.len() as int)) == Ok::<u64, UnpackError>(s as u64)
            &&& check_section_spec(image.subrange(s, digest_at)) == Ok::<(), UnpackError>(())
            &&& password_check_spec(image.subrange(digest_at, meta_len_at), password) == Ok::<(), UnpackError>(())
            &&& read_meta == meta
            &&& app_name_of(json_text_member(read_meta, APP_NAME_KEY@)) == config.app_name@
            &&& !encrypted
            &&& payload_len == payload.len()
            &&& decode_chunk_spec(
                image.subrange(payload_at, payload_at + payload_len),
                encrypted,
                payload_key_spec(encrypted, password),
                0,
            ) == payload
        }),
{
    lemma_packed_image_layout(stub, meta, payload);
    lemma_image_reads_back(stub, open_digest(), meta, payload);
    lemma_metadata_reads_back(config, original_size, total_files, timestamp, meta);
    let image = packed_image(stub, meta, payload);
    let digest_at = stub.len() + MAGIC_LEN;
    assert(image.subrange(digest_at, digest_at + DIGEST_LEN) == open_digest());
    assert(all_zero(open_digest()));
}

} // verus!
