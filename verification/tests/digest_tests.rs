use flash::digest::digest;
use flash::digest::digest_bytes;
use flash::digest::Hasher;
use flash::digest::DIGEST_LEN;

#[test]
fn known_digests() {
    assert_eq!(
        digest_bytes(b"").to_hex(),
        "e3b0c44298fc1c149afbf4c8996fb92427ae41e4649b934ca495991b7852b855"
    );
    assert_eq!(
        digest_bytes(b"abc").to_hex(),
        "ba7816bf8f01cfea414140de5dae2223b00361a396177a9cb410ff61f20015ad"
    );
    assert_eq!(digest_bytes(b"abc").as_bytes().len(), DIGEST_LEN);
    assert_eq!(digest_bytes(b"abc").as_bytes()[0], 0xba);
    assert_eq!(digest_bytes(b"abc").as_bytes()[31], 0xad);
}

#[test]
fn identical_content_gives_identical_digests() {
    // Two files of different names and the same content: the name is no part of the stream.
    let file_a: Vec<u8> = b"the same bytes".to_vec();
    let file_b: Vec<u8> = b"the same bytes".to_vec();
    assert!(digest_bytes(&file_a).same(&digest_bytes(&file_b)));
    assert_eq!(digest_bytes(&file_a).to_hex(), digest_bytes(&file_b).to_hex());
}

#[test]
fn a_single_byte_changes_the_digest() {
    let file_a: Vec<u8> = b"the same bytes".to_vec();
    let mut file_b: Vec<u8> = file_a.clone();
    file_b[5] ^= 1;
    assert!(!digest_bytes(&file_a).same(&digest_bytes(&file_b)));
    assert_ne!(digest_bytes(&file_a).to_hex(), digest_bytes(&file_b).to_hex());
}

#[test]
fn chunking_does_not_matter() {
    let data: Vec<u8> = (0..20000u32).map(|i| (i % 251) as u8).collect();
    let whole = digest_bytes(&data);
    let in_chunks = digest(&data.chunks(8192).map(|c| c.to_vec()).collect());
    let in_small_chunks = digest(&data.chunks(7).map(|c| c.to_vec()).collect());
    let with_empty_chunks = digest(&vec![vec![], data[..10].to_vec(), vec![], data[10..].to_vec()]);
    assert!(whole.same(&in_chunks));
    assert!(whole.same(&in_small_chunks));
    assert!(whole.same(&with_empty_chunks));
    assert!(digest(&vec![]).same(&digest_bytes(b"")));
}

#[test]
fn feeding_a_stream_until_its_end() {
    let data: Vec<u8> = b"0123456789".to_vec();
    let mut hasher = Hasher::new();
    let mut position = 0;
    let mut reads = 0;
    loop {
        let end = (position + 4).min(data.len());
        let more = hasher.feed(&data[position..end]);
        reads += 1;
        position = end;
        if !more {
            break;
        }
    }
    assert_eq!(reads, 4);
    assert!(hasher.finish().same(&digest_bytes(&data)));
}

#[test]
fn hex_text_is_lower_case_and_two_digits_a_byte() {
    let hex = digest_bytes(b"hello world\n").to_hex();
    assert_eq!(hex.len(), 64);
    assert!(hex.chars().all(|c| c.is_ascii_digit() || ('a'..='f').contains(&c)));
    assert_eq!(
        hex,
        "a948904f2f0f479b8f8197694b30184b0d2ed1c1cd2a1ec0fb85d299a192a447"
    );
}
