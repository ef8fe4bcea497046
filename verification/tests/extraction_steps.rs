use fluxi::container::{pack_footer, pack_header};
use fluxi::extraction::{Extraction, Phase, Request};
use fluxi::extractor::{decode_chunk, UnpackError};
use fluxi::hash::simple_hash;

const MAGIC: &[u8] = b"FLUXI_FLUXIONICS_V100\x00";

fn image(digest: &[u8], meta: &[u8], payload: &[u8]) -> Vec<u8> {
    let stub = b"@echo off\r\n".to_vec();
    let mut img = stub.clone();
    img.extend_from_slice(MAGIC);
    img.extend_from_slice(digest);
    img.extend_from_slice(&(meta.len() as u32).to_le_bytes());
    img.extend_from_slice(meta);
    img.extend_from_slice(&(payload.len() as u64).to_le_bytes());
    img.extend_from_slice(payload);
    img.extend_from_slice(MAGIC);
    img.extend_from_slice(&(stub.len() as u32).to_le_bytes());
    img
}

/// Runs the step function over an in-memory image; payload reads are cut to
/// at most `piece` bytes.
fn run(img: &[u8], password: Option<&str>, piece: usize) -> Result<(String, Vec<u8>), UnpackError> {
    let (mut ex, mut request) = Extraction::begin(img.len() as u64, password.map(String::from));
    let mut pos = 0usize;
    let mut written = Vec::new();
    loop {
        let input: Vec<u8> = match request {
            Request::Fail { error } => return Err(error),
            Request::Unzip { app_name } => return Ok((app_name, written)),
            Request::ReadAt { offset, len } => {
                pos = offset as usize + len;
                img[offset as usize..pos].to_vec()
            }
            Request::Read { len } => {
                let v = img[pos..pos + len].to_vec();
                pos += len;
                v
            }
            Request::ReadUpTo { max } => {
                let n = max.min(piece).min(img.len() - pos);
                let v = img[pos..pos + n].to_vec();
                pos += n;
                v
            }
        };
        let step = ex.step(&input);
        written.extend_from_slice(&step.write);
        request = step.next;
    }
}

#[test]
fn packed_image_runs_to_unzip() {
    let meta = b"{\"app_name\":\"Demo\"}";
    let payload = b"zip payload bytes".to_vec();
    let mut img = pack_header(b"@echo off\r\n", meta, payload.len() as u64);
    img.extend_from_slice(&payload);
    img.extend_from_slice(&pack_footer(11));
    assert_eq!(run(&img, None, 4), Ok(("Demo".to_string(), payload)));
}

#[test]
fn short_reads_keep_the_keystream() {
    let plain: Vec<u8> = (0..700u32).map(|i| (i % 256) as u8).collect();
    let key = fluxi::extractor::payload_key(true, Some("pw"));
    let secret = decode_chunk(&plain, true, key, 0);
    let digest = simple_hash("pw");
    let img = image(&digest, b"{\"app_name\":\"X\",\"encrypted\":true}", &secret);
    for piece in [1usize, 3, 255, 256, 1000] {
        assert_eq!(run(&img, Some("pw"), piece), Ok(("X".to_string(), plain.clone())));
    }
}

#[test]
fn steps_report_the_first_failure() {
    assert_eq!(run(&[0u8; 10], None, 8), Err(UnpackError::TooSmall));
    let mut img = image(&[0u8; 32], b"{}", b"p");
    let n = img.len();
    img[n - 5] = b'?';
    assert_eq!(run(&img, None, 8), Err(UnpackError::NotFluxi));
    let digest = simple_hash("pw");
    let img = image(&digest, b"{}", b"p");
    assert_eq!(run(&img, None, 8), Err(UnpackError::PasswordRequired));
    assert_eq!(run(&img, Some("nope"), 8), Err(UnpackError::WrongPassword));
    assert_eq!(run(&img, Some("pw"), 8), Ok(("Unknown".to_string(), b"p".to_vec())));
}

#[test]
fn broken_section_is_invalid() {
    let mut img = image(&[0u8; 32], b"{}", b"p");
    let s = 11;
    img[s] = b'X';
    assert_eq!(run(&img, None, 8), Err(UnpackError::InvalidStructure));
}

#[test]
fn empty_read_ends_copying() {
    let img = image(&[0u8; 32], b"{}", b"abc");
    let (mut ex, _) = Extraction::begin(img.len() as u64, None);
    let footer_at = img.len() - 26;
    let step = ex.step(&img[footer_at..]);
    assert!(matches!(step.next, Request::ReadAt { offset: 11, len: 22 }));
    ex.step(&img[11..33]);
    ex.step(&img[33..65]);
    ex.step(&img[65..69]);
    ex.step(&img[69..71]);
    let step = ex.step(&img[71..79]);
    assert!(matches!(step.next, Request::ReadUpTo { max: 3 }));
    let step = ex.step(&[]);
    assert!(matches!(step.next, Request::Unzip { .. }));
    assert!(matches!(ex.phase, Phase::Done));
}
