use std::io::Write;

use flate2::write::GzEncoder;
use flate2::Compression;
use injector::archive::entry_path_is_safe;
use injector::digest::digest_accepts;
use injector::order::bytes_before;
use injector::payload::{assemble_payload, name_order, reassemble, Chunk, ReassemblyError};
use sha2::{Digest, Sha256};

fn tar_of(files: &[(&str, &[u8])]) -> Vec<u8> {
    let mut builder = tar::Builder::new(Vec::new());
    for (path, data) in files {
        let mut header = tar::Header::new_gnu();
        header.set_size(data.len() as u64);
        header.set_mode(0o644);
        header.set_cksum();
        builder.append_data(&mut header, path, *data).unwrap();
    }
    builder.into_inner().unwrap()
}

fn gzip(data: &[u8]) -> Vec<u8> {
    let mut enc = GzEncoder::new(Vec::new(), Compression::default());
    enc.write_all(data).unwrap();
    enc.finish().unwrap()
}

fn sha256_hex(data: &[u8]) -> String {
    hex::encode(Sha256::digest(data))
}

fn chunk(name: &str, data: &[u8]) -> Chunk {
    Chunk { name: name.as_bytes().to_vec(), data: data.to_vec() }
}

fn layout_tar() -> Vec<u8> {
    tar_of(&[
        ("oci-layout", b"{\"imageLayoutVersion\":\"1.0.0\"}".as_slice()),
        ("index.json", b"{\"manifests\":[]}".as_slice()),
        ("blobs/sha256/deadbeef", b"manifest bytes".as_slice()),
    ])
}

#[test]
fn reassembles_chunks_in_name_order() {
    let archive = layout_tar();
    let payload = gzip(&archive);
    let (first, second) = payload.split_at(payload.len() / 2);
    let digest = sha256_hex(&payload);
    // handed over out of order: the path order decides
    let chunks = vec![
        chunk("/zarf-init/zarf-payload-001", second),
        chunk("/zarf-init/zarf-payload-000", first),
    ];
    match reassemble(&chunks, &digest) {
        Ok(tar) => assert_eq!(tar, archive),
        Err(_) => panic!("reassembly failed"),
    }
}

#[test]
fn reassembly_accepts_upper_case_digest() {
    let archive = layout_tar();
    let payload = gzip(&archive);
    let (first, second) = payload.split_at(10);
    let digest = sha256_hex(&payload).to_uppercase();
    let chunks = vec![
        chunk("/zarf-init/zarf-payload-000", first),
        chunk("/zarf-init/zarf-payload-001", second),
    ];
    assert!(matches!(reassemble(&chunks, &digest), Ok(ref t) if *t == archive));
}

#[test]
fn digest_mismatch_stops_reassembly() {
    let payload = gzip(&layout_tar());
    let mut digest = sha256_hex(&payload).into_bytes();
    digest[0] = if digest[0] == b'0' { b'1' } else { b'0' };
    let digest = String::from_utf8(digest).unwrap();
    let chunks = vec![chunk("/zarf-init/zarf-payload-000", &payload)];
    match reassemble(&chunks, &digest) {
        Err(ReassemblyError::DigestMismatch { expected, actual }) => {
            assert_eq!(expected, digest);
            assert_eq!(actual, sha256_hex(&payload));
        }
        _ => panic!("expected a digest mismatch"),
    }
}

#[test]
fn no_chunks_is_an_error() {
    let chunks: Vec<Chunk> = Vec::new();
    assert!(matches!(
        reassemble(&chunks, &sha256_hex(b"")),
        Err(ReassemblyError::NoChunksFound)
    ));
}

#[test]
fn payload_that_is_not_gzip_is_an_extraction_error() {
    let payload = b"plain bytes, not gzip".to_vec();
    let chunks = vec![chunk("/zarf-init/zarf-payload-000", &payload)];
    assert!(matches!(
        reassemble(&chunks, &sha256_hex(&payload)),
        Err(ReassemblyError::ExtractionError)
    ));
}

#[test]
fn payload_is_concatenated_by_ascending_path() {
    let chunks = vec![
        chunk("/i/zarf-payload-002", b"cc"),
        chunk("/i/zarf-payload-000", b"a"),
        chunk("/i/zarf-payload-001", b"bbb"),
    ];
    assert_eq!(name_order(&chunks), vec![1, 2, 0]);
    assert_eq!(assemble_payload(&chunks), b"abbbcc".to_vec());
}

#[test]
fn paths_order_bytewise() {
    assert!(bytes_before(b"zarf-payload-000", b"zarf-payload-001"));
    assert!(!bytes_before(b"zarf-payload-001", b"zarf-payload-000"));
    assert!(bytes_before(b"zarf-payload-9", b"zarf-payload-a"));
    assert!(bytes_before(b"abc", b"abcd"));
    assert!(!bytes_before(b"abc", b"abc"));
    assert!(bytes_before(b"", b"a"));
}

#[test]
fn digest_comparison_ignores_case() {
    let digest = Sha256::digest(b"abc").to_vec();
    let lower = "ba7816bf8f01cfea414140de5dae2223b00361a396177a9cb410ff61f20015ad";
    assert!(digest_accepts(lower, &digest));
    assert!(digest_accepts(&lower.to_uppercase(), &digest));
    assert!(!digest_accepts(&lower[1..], &digest));
    assert!(!digest_accepts("", &digest));
    assert!(digest_accepts("", &[]));
    assert!(digest_accepts("00ff10", &[0x00, 0xff, 0x10]));
    assert!(!digest_accepts("00ff11", &[0x00, 0xff, 0x10]));
}

#[test]
fn tar_entry_paths_must_stay_inside() {
    assert!(entry_path_is_safe(b"blobs/sha256/abc"));
    assert!(entry_path_is_safe(b"index.json"));
    assert!(entry_path_is_safe(b"a/..b/c"));
    assert!(entry_path_is_safe(b"a/b.."));
    assert!(!entry_path_is_safe(b"/etc/passwd"));
    assert!(!entry_path_is_safe(b".."));
    assert!(!entry_path_is_safe(b"../x"));
    assert!(!entry_path_is_safe(b"a/../b"));
    assert!(!entry_path_is_safe(b"a/.."));
}
