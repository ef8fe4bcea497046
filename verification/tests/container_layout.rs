use fluxi::container::{has_magic_at, magic_bytes, pack_footer, pack_header, FOOTER_LEN, MAGIC_LEN};
use fluxi::extractor::{
    check_password, check_section, decode_chunk, footer_offset, meta_length, parse_footer,
    payload_key, payload_length, UnpackError,
};
use fluxi::metadata::read_image_info;
use fluxi::packer::{build_metadata, build_stub, PackConfig};

const MAGIC: &[u8] = b"FLUXI_FLUXIONICS_V100\x00";

#[test]
fn signature_bytes() {
    assert_eq!(magic_bytes(), MAGIC.to_vec());
    assert_eq!(MAGIC_LEN, 22);
    assert_eq!(FOOTER_LEN, 26);
}

#[test]
fn signature_found_at_offset() {
    let mut bytes = vec![1u8, 2, 3];
    bytes.extend_from_slice(MAGIC);
    assert!(has_magic_at(&bytes, 3));
    assert!(!has_magic_at(&bytes, 0));
}

#[test]
fn header_layout() {
    let header = pack_header(b"STUB", b"{}", 0x0102030405060708);
    let mut expected = b"STUB".to_vec();
    expected.extend_from_slice(MAGIC);
    expected.extend_from_slice(&[0u8; 32]);
    expected.extend_from_slice(&[2, 0, 0, 0]);
    expected.extend_from_slice(b"{}");
    expected.extend_from_slice(&[8, 7, 6, 5, 4, 3, 2, 1]);
    assert_eq!(header, expected);
}

#[test]
fn footer_layout() {
    let footer = pack_footer(0x1234);
    let mut expected = MAGIC.to_vec();
    expected.extend_from_slice(&[0x34, 0x12, 0, 0]);
    assert_eq!(footer, expected);
}

#[test]
fn image_too_small() {
    assert_eq!(footer_offset(25), Err(UnpackError::TooSmall));
    assert_eq!(footer_offset(0), Err(UnpackError::TooSmall));
    assert_eq!(footer_offset(26), Ok(0));
    assert_eq!(footer_offset(1000), Ok(974));
}

#[test]
fn footer_without_signature() {
    let mut footer = vec![0u8; 26];
    footer[25] = 1;
    assert_eq!(parse_footer(&footer), Err(UnpackError::NotFluxi));
}

#[test]
fn footer_with_signature() {
    let footer = pack_footer(300);
    assert_eq!(parse_footer(&footer), Ok(300));
}

#[test]
fn section_signature() {
    assert_eq!(check_section(MAGIC), Ok(()));
    let mut other = MAGIC.to_vec();
    other[0] = b'G';
    assert_eq!(check_section(&other), Err(UnpackError::InvalidStructure));
}

#[test]
fn length_fields() {
    assert_eq!(meta_length(&[0x10, 0x01, 0, 0]), 0x110);
    assert_eq!(payload_length(&[1, 0, 0, 0, 0, 0, 0, 0x80]), 0x8000_0000_0000_0001);
}

#[test]
fn packed_image_extracts() {
    let config = PackConfig {
        files: vec![],
        output_path: "o.exe".to_string(),
        app_name: "Demo Tool".to_string(),
        app_version: "1".to_string(),
        entry_point: "demo.exe".to_string(),
    };
    let stub = build_stub(&config.entry_point, &config.app_name);
    let meta = build_metadata(&config, 9, 1, 5).unwrap();
    let payload = b"PK\x03\x04 payload bytes".to_vec();
    let mut image = pack_header(stub.as_bytes(), &meta, payload.len() as u64);
    image.extend_from_slice(&payload);
    image.extend_from_slice(&pack_footer(stub.len()));

    let start = footer_offset(image.len() as u64).unwrap() as usize;
    let s = parse_footer(&image[start..]).unwrap() as usize;
    assert_eq!(s, stub.len());
    assert_eq!(check_section(&image[s..s + 22]), Ok(()));
    assert_eq!(check_password(&image[s + 22..s + 54], None), Ok(()));
    assert_eq!(check_password(&image[s + 22..s + 54], Some("x")), Ok(()));
    let m = meta_length(&image[s + 54..s + 58]);
    let info = read_image_info(&image[s + 58..s + 58 + m]);
    assert_eq!(info.app_name, "Demo Tool");
    assert!(!info.encrypted);
    let p = payload_length(&image[s + 58 + m..s + 66 + m]) as usize;
    let key = payload_key(info.encrypted, None);
    let body = decode_chunk(&image[s + 66 + m..s + 66 + m + p], info.encrypted, key, 0);
    assert_eq!(body, payload);
}

#[test]
fn packed_image_footer_leads_to_stub() {
    let stub = b"@echo off\r\n".to_vec();
    let payload = b"PK-data".to_vec();
    let mut image = pack_header(&stub, b"{\"a\":1}", payload.len() as u64);
    image.extend_from_slice(&payload);
    image.extend_from_slice(&pack_footer(stub.len()));
    let start = footer_offset(image.len() as u64).unwrap() as usize;
    let stub_len = parse_footer(&image[start..]).unwrap() as usize;
    assert_eq!(stub_len, stub.len());
    assert_eq!(check_section(&image[stub_len..stub_len + 22]), Ok(()));
}

#[test]
fn extractor_layout_reads_back() {
    let stub = b"STUB!".to_vec();
    let digest = vec![0u8; 32];
    let meta = b"{\"app_name\":\"Demo\"}".to_vec();
    let payload = b"zipzipzip".to_vec();
    let mut image = stub.clone();
    image.extend_from_slice(MAGIC);
    image.extend_from_slice(&digest);
    image.extend_from_slice(&(meta.len() as u32).to_le_bytes());
    image.extend_from_slice(&meta);
    image.extend_from_slice(&(payload.len() as u64).to_le_bytes());
    image.extend_from_slice(&payload);
    image.extend_from_slice(MAGIC);
    image.extend_from_slice(&(stub.len() as u32).to_le_bytes());

    let start = footer_offset(image.len() as u64).unwrap() as usize;
    let s = parse_footer(&image[start..]).unwrap() as usize;
    assert_eq!(s, stub.len());
    assert_eq!(check_section(&image[s..s + 22]), Ok(()));
    assert_eq!(&image[s + 22..s + 54], &digest[..]);
    let m = meta_length(&image[s + 54..s + 58]);
    assert_eq!(&image[s + 58..s + 58 + m], &meta[..]);
    let p = payload_length(&image[s + 58 + m..s + 66 + m]) as usize;
    assert_eq!(&image[s + 66 + m..s + 66 + m + p], &payload[..]);
}
