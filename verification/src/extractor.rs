//! The decisions of the extractor: where the footer is, whether the image is
//! one of ours, whether the password opens it, how the payload is deciphered,
//! and what is reported.  The caller performs the reads and writes in the
//! order these functions describe.

use vstd::prelude::*;
use vstd::bytes::{spec_u32_from_le_bytes, spec_u64_from_le_bytes};
use vstd::slice::slice_subrange;
use vstd::wrapping::u8_specs;
use crate::container::{magic, has_magic_at, MAGIC_LEN, FOOTER_LEN, LEN32, LEN64};
use crate::hash::{password_digest, simple_hash, DIGEST_LEN};
use crate::text::{decimal, push_decimal};

verus! {

/// What the caller asks the extractor to do.
#[derive(Debug, Clone)]
pub struct UnpackConfig {
    pub exe_path: String,
    pub output_dir: String,
    pub password: Option<String>,
}

/// What the extractor reports after a complete extraction.
#[derive(Debug, Clone)]
pub struct UnpackResult {
    pub success: bool,
    pub output_dir: String,
    pub files_count: usize,
    pub app_name: String,
    pub message: String,
}

/// A progress notification of the extractor.
#[derive(Debug, Clone)]
pub struct ProgressEvent {
    pub percent: u32,
    pub message: String,
    pub current_file: String,
}

/// Why an extraction stops.
#[derive(Debug, Clone, PartialEq, Eq)]
pub enum UnpackError {
    /// The image file does not exist.
    NotFound { path: String },
    /// The image is shorter than the footer.
    TooSmall,
    /// The footer does not carry the signature.
    NotFluxi,
    /// The section after the stub does not start with the signature.
    InvalidStructure,
    /// The image is protected and no password was given.
    PasswordRequired,
    /// The password does not match the stored digest.
    WrongPassword,
    /// A read, a write or the archive failed; the text says why.
    Io { message: String },
}

pub const NOT_FOUND_PREFIX: &'static str = "Archivo no encontrado: ";
pub const TOO_SMALL_TEXT: &'static str = "Archivo demasiado pequeño — no es un .fluxi.exe válido";
pub const NOT_FLUXI_TEXT: &'static str = "No es un archivo Fluxi válido — firma no encontrada";
pub const INVALID_STRUCTURE_TEXT: &'static str = "Estructura interna inválida";
pub const PASSWORD_REQUIRED_TEXT: &'static str = "Este archivo está protegido con contraseña";
pub const WRONG_PASSWORD_TEXT: &'static str = "Contraseña incorrecta";

/// The text the extractor reports for an error.
pub open spec fn error_text(e: UnpackError) -> Seq<char> {
    match e {
        UnpackError::NotFound { path } => NOT_FOUND_PREFIX@ + path@,
        UnpackError::TooSmall => TOO_SMALL_TEXT@,
        UnpackError::NotFluxi => NOT_FLUXI_TEXT@,
        UnpackError::InvalidStructure => INVALID_STRUCTURE_TEXT@,
        UnpackError::PasswordRequired => PASSWORD_REQUIRED_TEXT@,
        UnpackError::WrongPassword => WRONG_PASSWORD_TEXT@,
        UnpackError::Io { message } => message@,
    }
}

impl UnpackError {
    /// The text reported for this error.
    pub fn message(&self) -> (r: String)
        ensures
            r@ == error_text(*self),
    {
        match self {
            UnpackError::NotFound { path } => String::from_str(NOT_FOUND_PREFIX).concat(path.as_str()),
            UnpackError::TooSmall => String::from_str(TOO_SMALL_TEXT),
            UnpackError::NotFluxi => String::from_str(NOT_FLUXI_TEXT),
            UnpackError::InvalidStructure => String::from_str(INVALID_STRUCTURE_TEXT),
            UnpackError::PasswordRequired => String::from_str(PASSWORD_REQUIRED_TEXT),
            UnpackError::WrongPassword => String::from_str(WRONG_PASSWORD_TEXT),
            UnpackError::Io { message } => message.clone(),
        }
    }
}

/// A progress event; the percentage is capped at 100.
pub fn progress(percent: u32, message: &str, current_file: &str) -> (ev: ProgressEvent)
    ensures
        ev.percent == (if percent < 100 { percent } else { 100 }),
        ev.message@ == message@,
        ev.current_file@ == current_file@,
{
    ProgressEvent {
        percent: if percent < 100 { percent } else { 100 },
        message: String::from_str(message),
        current_file: String::from_str(current_file),
    }
}

// ---------------------------------------------------------------------------
// Footer and section signature

/// Where the footer starts in an image of `image_len` bytes.
pub open spec fn footer_offset_spec(image_len: u64) -> Result<u64, UnpackError> {
    if image_len < FOOTER_LEN {
        Err(UnpackError::TooSmall)
    } else {
        Ok((image_len - FOOTER_LEN) as u64)
    }
}

/// Offset of the footer; an image shorter than the footer is refused.
pub fn footer_offset(image_len: u64) -> (r: Result<u64, UnpackError>)
    ensures
        r == footer_offset_spec(image_len),
{
    if image_len < FOOTER_LEN as u64 {
        Err(UnpackError::TooSmall)
    } else {
        Ok(image_len - FOOTER_LEN as u64)
    }
}

/// The stub length that a footer announces, if it carries the signature.
pub open spec fn parse_footer_spec(footer: Seq<u8>) -> Result<u64, UnpackError> {
    if footer.subrange(0, MAGIC_LEN as int) == magic() {
        Ok(spec_u32_from_le_bytes(footer.subrange(MAGIC_LEN as int, FOOTER_LEN as int)) as u64)
    } else {
        Err(UnpackError::NotFluxi)
    }
}

/// Reads the footer: the signature, then the stub length.
pub fn parse_footer(footer: &[u8]) -> (r: Result<u64, UnpackError>)
    requires
        footer@.len() == FOOTER_LEN,
    ensures
        r == parse_footer_spec(footer@),
{
    if !has_magic_at(footer, 0) {
        return Err(UnpackError::NotFluxi);
    }
    let field = slice_subrange(footer, MAGIC_LEN, FOOTER_LEN);
    Ok(vstd::bytes::u32_from_le_bytes(field) as u64)
}

/// Whether the section after the stub opens with the signature.
pub open spec fn check_section_spec(bytes: Seq<u8>) -> Result<(), UnpackError> {
    if bytes == magic() {
        Ok(())
    } else {
        Err(UnpackError::InvalidStructure)
    }
}

/// Checks the signature read at the stub length.
pub fn check_section(bytes: &[u8]) -> (r: Result<(), UnpackError>)
    requires
        bytes@.len() == MAGIC_LEN,
    ensures
        r == check_section_spec(bytes@),
{
    if has_magic_at(bytes, 0) {
        assert(bytes@.subrange(0, MAGIC_LEN as int) =~= bytes@);
        Ok(())
    } else {
        assert(bytes@.subrange(0, MAGIC_LEN as int) =~= bytes@);
        Err(UnpackError::InvalidStructure)
    }
}

// ---------------------------------------------------------------------------
// Password

/// A digest of only zero bytes marks an image without password.
pub open spec fn all_zero(bytes: Seq<u8>) -> bool {
    forall|i: int| 0 <= i < bytes.len() ==> bytes[i] == 0
}

/// The characters of an optional password.
pub open spec fn password_chars(password: Option<&str>) -> Option<Seq<char>> {
    match password {
        Some(p) => Some(p@),
        None => None,
    }
}

/// Whether `password` opens an image whose stored digest is `stored`.
pub open spec fn password_check_spec(stored: Seq<u8>, password: Option<Seq<char>>) -> Result<(), UnpackError> {
    if all_zero(stored) {
        Ok(())
    } else {
        match password {
            Some(p) if p.len() > 0 => if password_digest(p) == stored {
                Ok(())
            } else {
                Err(UnpackError::WrongPassword)
            },
            _ => Err(UnpackError::PasswordRequired),
        }
    }
}

fn is_all_zero(bytes: &[u8]) -> (r: bool)
    ensures
        r == all_zero(bytes@),
{
    let mut i: usize = 0;
    while i < bytes.len()
        invariant
            i <= bytes@.len(),
            forall|k: int| 0 <= k < i ==> bytes@[k] == 0,
        decreases bytes.len() - i,
    {
        if bytes[i] != 0 {
            return false;
        }
        i += 1;
    }
    true
}

fn same_bytes(a: &[u8], b: &[u8]) -> (r: bool)
    ensures
        r == (a@ == b@),
{
    if a.len() != b.len() {
        return false;
    }
    let mut i: usize = 0;
    while i < a.len()
        invariant
            a@.len() == b@.len(),
            i <= a@.len(),
            forall|k: int| 0 <= k < i ==> a@[k] == b@[k],
        decreases a.len() - i,
    {
        if a[i] != b[i] {
            return false;
        }
        i += 1;
    }
    assert(a@ =~= b@);
    true
}

/// Checks a password against the stored digest.  A stored digest of zeros
/// needs no password; otherwise a missing or empty password is refused, and a
/// password whose digest differs from the stored one is wrong.
pub fn check_password(stored: &[u8], password: Option<&str>) -> (r: Result<(), UnpackError>)
    ensures
        r == password_check_spec(stored@, password_chars(password)),
{
    if is_all_zero(stored) {
        return Ok(());
    }
    match password {
        None => Err(UnpackError::PasswordRequired),
        Some(p) => {
            if p.is_empty() {
                Err(UnpackError::PasswordRequired)
            } else {
                let digest = simple_hash(p);
                if same_bytes(digest.as_slice(), stored) {
                    Ok(())
                } else {
                    Err(UnpackError::WrongPassword)
                }
            }
        },
    }
}

// ---------------------------------------------------------------------------
// Lengths

/// The metadata length read from its 32-bit field.
pub fn meta_length(field: &[u8]) -> (n: usize)
    requires
        field@.len() == LEN32,
    ensures
        n == spec_u32_from_le_bytes(field@) as usize,
{
    vstd::bytes::u32_from_le_bytes(field) as usize
}

/// The payload length read from its 64-bit field.
pub fn payload_length(field: &[u8]) -> (n: u64)
    requires
        field@.len() == LEN64,
    ensures
        n == spec_u64_from_le_bytes(field@),
{
    vstd::bytes::u64_from_le_bytes(field)
}

/// Largest piece of payload copied at once: 8 MiB.
pub const CHUNK: usize = 8388608;

/// How many payload bytes to request next, after `copied` of `payload_len`.
pub open spec fn read_len_spec(payload_len: u64, copied: u64) -> usize {
    let left = (payload_len - copied) as usize;
    if CHUNK <= left {
        CHUNK
    } else {
        left
    }
}

/// The size of the next read of the payload: at most one chunk, and no more
/// than what is left.
pub fn next_read_len(payload_len: u64, copied: u64) -> (n: usize)
    requires
        copied <= payload_len,
    ensures
        n == read_len_spec(payload_len, copied),
        n <= CHUNK,
        n <= payload_len - copied,
        payload_len - copied <= usize::MAX ==> (n == 0 <==> copied == payload_len),
{
    let left = (payload_len - copied) as usize;
    if CHUNK <= left {
        CHUNK
    } else {
        left
    }
}

// ---------------------------------------------------------------------------
// Payload cipher

/// The key byte: the wrapping sum of the password bytes, starting at 0xAB.
pub open spec fn key_of_bytes(bytes: Seq<u8>) -> u8
    decreases bytes.len(),
{
    if bytes.len() == 0 {
        0xABu8
    } else {
        u8_specs::wrapping_add(key_of_bytes(bytes.drop_last()), bytes.last())
    }
}

/// The password used for the key when none is given.
pub const DEFAULT_KEY_PASSWORD: &'static str = "fluxi";

/// The key of the payload cipher: 0 for a plain payload, otherwise the key of
/// the given password, or of the default one.
pub open spec fn payload_key_spec(encrypted: bool, password: Option<Seq<char>>) -> u8 {
    if encrypted {
        key_of_bytes(
            vstd::utf8::encode_utf8(
                match password {
                    Some(p) => p,
                    None => DEFAULT_KEY_PASSWORD@,
                },
            ),
        )
    } else {
        0u8
    }
}

/// The key of the payload cipher.
pub fn payload_key(encrypted: bool, password: Option<&str>) -> (k: u8)
    ensures
        k == payload_key_spec(encrypted, password_chars(password)),
{
    if !encrypted {
        return 0;
    }
    let p = match password {
        Some(p) => p,
        None => DEFAULT_KEY_PASSWORD,
    };
    let bytes = p.as_bytes();
    let mut key: u8 = 0xAB;
    let mut i: usize = 0;
    while i < bytes.len()
        invariant
            i <= bytes@.len(),
            key == key_of_bytes(bytes@.take(i as int)),
        decreases bytes.len() - i,
    {
        key = key.wrapping_add(bytes[i]);
        proof {
            assert(bytes@.take(i + 1).drop_last() =~= bytes@.take(i as int));
        }
        i += 1;
    }
    assert(bytes@.take(bytes@.len() as int) =~= bytes@);
    key
}

/// The keystream byte at position `pos` of the payload: `key + pos` modulo
/// 256.
pub open spec fn keystream_byte(key: u8, pos: int) -> u8 {
    ((key + pos) % 256) as u8
}

/// A piece of payload that starts at position `offset` of the payload, each
/// byte XORed with the keystream byte of its position in the payload.
pub open spec fn xor_keystream(chunk: Seq<u8>, key: u8, offset: int) -> Seq<u8> {
    Seq::new(chunk.len(), |i: int| chunk[i] ^ keystream_byte(key, offset + i))
}

/// A piece of payload starting at `offset`, as written out: deciphered when
/// the payload is encrypted, unchanged otherwise.
pub open spec fn decode_chunk_spec(chunk: Seq<u8>, encrypted: bool, key: u8, offset: int) -> Seq<u8> {
    if encrypted {
        xor_keystream(chunk, key, offset)
    } else {
        chunk
    }
}

/// Deciphers the piece of payload that starts at position `offset` of the
/// payload.
pub fn decode_chunk(chunk: &[u8], encrypted: bool, key: u8, offset: u64) -> (out: Vec<u8>)
    ensures
        out@ == decode_chunk_spec(chunk@, encrypted, key, offset as int),
{
    if !encrypted {
        return vstd::slice::slice_to_vec(chunk);
    }
    let mut out: Vec<u8> = Vec::new();
    let mut k: u8 = ((offset % 256) as u8).wrapping_add(key);
    proof {
        vstd::arithmetic::div_mod::lemma_add_mod_noop(offset as int, key as int, 256);
        vstd::arithmetic::div_mod::lemma_mod_twice(key as int, 256);
    }
    let mut i: usize = 0;
    while i < chunk.len()
        invariant
            i <= chunk@.len(),
            k == keystream_byte(key, offset + i),
            out@ == xor_keystream(chunk@.take(i as int), key, offset as int),
        decreases chunk.len() - i,
    {
        out.push(chunk[i] ^ k);
        proof {
            assert(out@ =~= xor_keystream(chunk@.take(i + 1), key, offset as int));
            vstd::arithmetic::div_mod::lemma_add_mod_noop(key + offset + i, 1, 256);
            vstd::arithmetic::div_mod::lemma_mod_twice(1, 256);
        }
        k = k.wrapping_add(1);
        i += 1;
    }
    assert(chunk@.take(chunk@.len() as int) =~= chunk@);
    out
}

// ---------------------------------------------------------------------------
// Report

/// The message reported after a complete extraction.
pub open spec fn unpack_message(app_name: Seq<char>, files_count: nat) -> Seq<char> {
    app_name + " extraído — "@ + decimal(files_count) + " archivos — by Fluxionics"@
}

/// The report of a complete extraction of `files_count` entries.
pub fn unpack_result(output_dir: &str, files_count: usize, app_name: &str) -> (r: UnpackResult)
    ensures
        r.success,
        r.output_dir@ == output_dir@,
        r.files_count == files_count,
        r.app_name@ == app_name@,
        r.message@ == unpack_message(app_name@, files_count as nat),
{
    let mut message = String::from_str(app_name);
    message.append(" extraído — ");
    push_decimal(&mut message, files_count);
    message.append(" archivos — by Fluxionics");
    UnpackResult {
        success: true,
        output_dir: String::from_str(output_dir),
        files_count,
        app_name: String::from_str(app_name),
        message,
    }
}

// ---------------------------------------------------------------------------
// Laws

/// The payload cipher undoes itself: deciphering a piece twice with the same
/// key and offset gives the piece back.
pub proof fn lemma_keystream_involution(chunk: Seq<u8>, key: u8, offset: int)
    ensures
        xor_keystream(xor_keystream(chunk, key, offset), key, offset) == chunk,
{
    let once = xor_keystream(chunk, key, offset);
    assert forall|i: int| 0 <= i < chunk.len() implies #[trigger] xor_keystream(once, key, offset)[i]
        == chunk[i] by {
        let b = chunk[i];
        let k = keystream_byte(key, offset + i);
        assert((b ^ k) ^ k == b) by (bit_vector);
    }
    assert(xor_keystream(once, key, offset) =~= chunk);
}

/// Deciphering a payload piece by piece, each piece at its position in the
/// payload, gives the same bytes as deciphering it whole: how the reads cut
/// the payload does not matter.
pub proof fn lemma_keystream_split(a: Seq<u8>, b: Seq<u8>, key: u8, offset: int)
    ensures
        xor_keystream(a + b, key, offset) == xor_keystream(a, key, offset) + xor_keystream(
            b,
            key,
            offset + a.len(),
        ),
{
    let whole = xor_keystream(a + b, key, offset);
    let parts = xor_keystream(a, key, offset) + xor_keystream(b, key, offset + a.len());
    assert forall|i: int| 0 <= i < whole.len() implies #[trigger] whole[i] == parts[i] by {
        if i >= a.len() {
            assert(offset + i == (offset + a.len()) + (i - a.len()));
        }
    }
    assert(whole =~= parts);
}

/// The pieces laid end to end.
pub open spec fn joined(pieces: Seq<Seq<u8>>) -> Seq<u8>
    decreases pieces.len(),
{
    if pieces.len() == 0 {
        Seq::empty()
    } else {
        joined(pieces.drop_last()) + pieces.last()
    }
}

/// What is written for payload read in the given pieces: each piece decoded
/// at the position where it starts in the payload.
pub open spec fn decoded_pieces(pieces: Seq<Seq<u8>>, encrypted: bool, key: u8) -> Seq<u8>
    decreases pieces.len(),
{
    if pieces.len() == 0 {
        Seq::empty()
    } else {
        decoded_pieces(pieces.drop_last(), encrypted, key) + decode_chunk_spec(
            pieces.last(),
            encrypted,
            key,
            joined(pieces.drop_last()).len() as int,
        )
    }
}

/// However the reads cut the payload into pieces, what is written is the
/// whole payload decoded from its start.
pub proof fn lemma_pieces_decode_as_whole(pieces: Seq<Seq<u8>>, encrypted: bool, key: u8)
    ensures
        decoded_pieces(pieces, encrypted, key) == decode_chunk_spec(joined(pieces), encrypted, key, 0),
    decreases pieces.len(),
{
    if pieces.len() == 0 {
        assert(decode_chunk_spec(joined(pieces), encrypted, key, 0) =~= Seq::<u8>::empty());
    } else {
        let front = pieces.drop_last();
        lemma_pieces_decode_as_whole(front, encrypted, key);
        if encrypted {
            lemma_keystream_split(joined(front), pieces.last(), key, 0);
        }
    }
}

/// The key starts at 0xAB, and each further password byte is added to it
/// modulo 256.
pub proof fn lemma_key_adds_each_byte(s: Seq<u8>, b: u8)
    ensures
        key_of_bytes(Seq::empty()) == 0xABu8,
        key_of_bytes(s.push(b)) as int == (key_of_bytes(s) as int + b as int) % 256,
{
    assert(s.push(b).drop_last() =~= s);
}

/// A plain payload has key 0; an encrypted one has the key of the UTF-8
/// bytes of the given password, or of `fluxi` when none is given.
pub proof fn lemma_key_source(password: Option<Seq<char>>)
    ensures
        payload_key_spec(false, password) == 0,
        password matches Some(p) ==> payload_key_spec(true, password) == key_of_bytes(
            vstd::utf8::encode_utf8(p),
        ),
        password is None ==> payload_key_spec(true, password) == key_of_bytes(
            vstd::utf8::encode_utf8("fluxi"@),
        ),
{
}

/// An unencrypted payload is copied unchanged.
pub proof fn lemma_plain_payload_unchanged(chunk: Seq<u8>, key: u8, offset: int)
    ensures
        decode_chunk_spec(chunk, false, key, offset) == chunk,
{
}

/// An image whose stored digest is all zeros opens with any password, or
/// none.
pub proof fn lemma_unprotected_opens(stored: Seq<u8>, password: Option<Seq<char>>)
    requires
        all_zero(stored),
    ensures
        password_check_spec(stored, password) == Ok::<(), UnpackError>(()),
{
}

/// A protected image does not open without a password, nor with an empty one.
pub proof fn lemma_protected_needs_password(stored: Seq<u8>)
    requires
        !all_zero(stored),
    ensures
        password_check_spec(stored, None) == Err::<(), UnpackError>(UnpackError::PasswordRequired),
        password_check_spec(stored, Some(Seq::<char>::empty())) == Err::<(), UnpackError>(
            UnpackError::PasswordRequired,
        ),
{
}

/// A non-empty password opens the image that stores its digest, and a
/// protected image opens with a non-empty password only when the stored
/// digest is that password's digest.
pub proof fn lemma_password_matches_digest(stored: Seq<u8>, password: Seq<char>)
    requires
        password.len() > 0,
    ensures
        password_check_spec(password_digest(password), Some(password)) == Ok::<(), UnpackError>(()),
        !all_zero(stored) ==> (password_check_spec(stored, Some(password)) == Ok::<(), UnpackError>(())
            <==> password_digest(password) == stored),
{
}

/// Copying in steps of `next_read_len` never passes the end of the payload
/// and, while bytes remain, always asks for some.
pub proof fn lemma_reads_cover_payload(payload_len: u64, copied: u64)
    requires
        copied <= payload_len,
        payload_len - copied <= usize::MAX,
    ensures
        copied + read_len_spec(payload_len, copied) <= payload_len,
        copied < payload_len ==> read_len_spec(payload_len, copied) > 0,
        read_len_spec(payload_len, copied) <= CHUNK,
{
}

} // verus!
