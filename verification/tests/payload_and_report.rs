use fluxi::extractor::{
    decode_chunk, next_read_len, payload_key, progress, unpack_result, CHUNK,
};

#[test]
fn key_of_plain_payload_is_zero() {
    assert_eq!(payload_key(false, Some("pw")), 0);
    assert_eq!(payload_key(false, None), 0);
}

#[test]
fn key_of_default_password() {
    assert_eq!(payload_key(true, None), 211);
}

#[test]
fn key_of_given_password() {
    assert_eq!(payload_key(true, Some("pw")), 146);
    assert_eq!(payload_key(true, Some("")), 0xAB);
}

#[test]
fn plain_chunk_is_copied() {
    assert_eq!(decode_chunk(&[1, 2, 3], false, 77, 0), vec![1, 2, 3]);
}

#[test]
fn encrypted_chunk_is_xored_with_running_key() {
    // byte i is XORed with key + i
    assert_eq!(decode_chunk(&[0, 0, 0], true, 0xFE, 0), vec![0xFE, 0xFF, 0x00]);
    assert_eq!(decode_chunk(&[0xFF, 0x0F], true, 1, 0), vec![0xFE, 0x0D]);
}

#[test]
fn encrypted_chunk_uses_its_payload_position() {
    assert_eq!(decode_chunk(&[0, 0], true, 0xFE, 1), vec![0xFF, 0x00]);
    assert_eq!(decode_chunk(&[0], true, 3, 256 + 5), vec![8]);
}

#[test]
fn pieces_decode_like_the_whole() {
    let data: Vec<u8> = (0..1000u32).map(|i| (i * 13 % 256) as u8).collect();
    let whole = decode_chunk(&data, true, 77, 0);
    let mut pieces = Vec::new();
    let mut at = 0usize;
    for len in [1usize, 7, 300, 0, 2, 690] {
        pieces.extend(decode_chunk(&data[at..at + len], true, 77, at as u64));
        at += len;
    }
    assert_eq!(at, data.len());
    assert_eq!(pieces, whole);
}

#[test]
fn cipher_undoes_itself() {
    let data: Vec<u8> = (0..600u32).map(|i| (i * 7 % 251) as u8).collect();
    let once = decode_chunk(&data, true, 211, 9);
    assert_ne!(once, data);
    assert_eq!(decode_chunk(&once, true, 211, 9), data);
}

#[test]
fn read_lengths() {
    assert_eq!(CHUNK, 8 * 1024 * 1024);
    assert_eq!(next_read_len(100, 0), 100);
    assert_eq!(next_read_len(100, 100), 0);
    assert_eq!(next_read_len(20_000_000, 0), CHUNK);
    assert_eq!(next_read_len(20_000_000, 16_777_216), 20_000_000 - 16_777_216);
}

#[test]
fn progress_is_capped() {
    let ev = progress(140, "Extrayendo", "a.txt");
    assert_eq!(ev.percent, 100);
    assert_eq!(ev.message, "Extrayendo");
    assert_eq!(ev.current_file, "a.txt");
    assert_eq!(progress(42, "", "").percent, 42);
}

#[test]
fn report_of_extraction() {
    let r = unpack_result("/tmp/out", 1234, "Demo");
    assert!(r.success);
    assert_eq!(r.output_dir, "/tmp/out");
    assert_eq!(r.files_count, 1234);
    assert_eq!(r.app_name, "Demo");
    assert_eq!(r.message, "Demo extraído — 1234 archivos — by Fluxionics");
}

#[test]
fn report_of_empty_extraction() {
    let r = unpack_result("out", 0, "Unknown");
    assert_eq!(r.message, "Unknown extraído — 0 archivos — by Fluxionics");
}
