use imohash::varint::put_uvarint;
use imohash::Hasher;
use md5::{Digest, Md5};

/// Deterministic pseudo-random test data: a chain of md5 digests over ever
/// longer prefixes of an all-'A' buffer, truncated to `n` bytes.
fn m(n: usize) -> Vec<u8> {
    let mut buffer: Vec<u8> = Vec::new();
    let mut md5 = Md5::new();
    let mut input: Vec<u8> = vec![0u8; (n + 15) / 16];
    input.fill(b'A');
    for i in (0..n).step_by(16) {
        md5.update(&input[0..1 + i / 16]);
        let output = md5.finalize_reset();
        buffer.extend_from_slice(&output[0..(n - i).min(16)]);
    }
    buffer
}

#[test]
fn test_put_uvarint() {
    let expected = [148u8, 145, 6, 0, 0, 0, 0, 0, 0, 0];
    let mut buffer = vec![0u8; 10];
    let actual = put_uvarint(&mut buffer, 100_500);
    assert_eq!(actual, 3);
    assert_eq!(buffer, expected);
}

#[test]
fn test_put_uvarint_keeps_tail() {
    let mut buffer = vec![0xEEu8; 10];
    let n = put_uvarint(&mut buffer, 100_500);
    assert_eq!(n, 3);
    assert_eq!(buffer, [148, 145, 6, 0xEE, 0xEE, 0xEE, 0xEE, 0xEE, 0xEE, 0xEE]);
}

#[test]
fn test_put_uvarint_small() {
    let mut buffer = vec![0u8; 10];
    let n = put_uvarint(&mut buffer, 0);
    assert_eq!(n, 1);
    assert_eq!(buffer, [0u8; 10]);

    let mut buffer = vec![0u8; 10];
    let n = put_uvarint(&mut buffer, 127);
    assert_eq!(n, 1);
    assert_eq!(buffer, [127, 0, 0, 0, 0, 0, 0, 0, 0, 0]);

    let mut buffer = vec![0u8; 10];
    let n = put_uvarint(&mut buffer, 128);
    assert_eq!(n, 2);
    assert_eq!(buffer, [0x80, 1, 0, 0, 0, 0, 0, 0, 0, 0]);
}

#[test]
fn test_default() {
    let data = vec![100, 131071, 131072, 50000];

    for size in data {
        let custom_hasher: Hasher = Hasher::with_sample_size_and_threshold(16384, 131072);
        let default_hasher: Hasher = Hasher::new();
        let test_data: Vec<u8> = m(size);
        assert_eq!(
            default_hasher.sum(&test_data).unwrap(),
            custom_hasher.sum(&test_data).unwrap()
        );

        let empty_byte_array: Vec<u8> = Vec::new();
        let h1 = default_hasher.sum(&empty_byte_array).unwrap();
        let h2 = custom_hasher.sum(&empty_byte_array).unwrap();
        assert_eq!(h1, h2);
    }
}

#[test]
fn test_custom() {
    let sample_size: u32 = 3;
    let sample_threshold: u32 = 45;

    let custom_hasher = Hasher::with_sample_size_and_threshold(sample_size, sample_threshold);

    // empty input
    let empty_byte_array: Vec<u8> = Vec::new();
    let hash = custom_hasher.sum(&empty_byte_array).unwrap();
    let zero_bytes: Vec<u8> = vec![0; 16];
    assert_eq!(hash.to_le_bytes(), &zero_bytes[..]);

    // small input
    let hash = custom_hasher.sum(b"hello").unwrap();
    assert_eq!(
        hex::encode(hash.to_le_bytes()),
        "05d8a7b341bd9b025b1e906a48ae1d19"
    );

    /* boundary tests using the custom sample size */
    let size = sample_threshold;

    // test that changing the gaps between sample zones does not affect the hash
    let mut data: Vec<u8> = vec![b'A'; size as usize];
    let h1 = custom_hasher.sum(&data).unwrap();

    data[sample_size as usize] = b'B';
    data[(size - sample_size - 1) as usize] = b'B';
    let h2 = custom_hasher.sum(&data).unwrap();
    assert_eq!(h1, h2);

    // test that changing a byte on the edge (but within) a sample zone
    // does change the hash
    let mut data: Vec<u8> = vec![b'A'; size as usize];
    data[sample_size as usize - 1] = b'B';
    let h3 = custom_hasher.sum(&data).unwrap();
    assert_ne!(h1, h3);

    let mut data: Vec<u8> = vec![b'A'; size as usize];
    data[size as usize / 2] = b'B';
    let h4 = custom_hasher.sum(&data).unwrap();
    assert_ne!(h1, h4);
    assert_ne!(h3, h4);

    let mut data: Vec<u8> = vec![b'A'; size as usize];
    data[(size / 2 + sample_size - 1) as usize] = b'B';
    let h5 = custom_hasher.sum(&data).unwrap();
    assert_ne!(h1, h5);
    assert_ne!(h3, h5);
    assert_ne!(h4, h5);

    let mut data: Vec<u8> = vec![b'A'; size as usize];
    data[(size - sample_size) as usize] = b'B';
    let h6 = custom_hasher.sum(&data).unwrap();
    assert_ne!(h1, h6);
    assert_ne!(h3, h6);
    assert_ne!(h4, h6);
    assert_ne!(h5, h6);

    // test that changing the size changes the hash
    let data: Vec<u8> = vec![b'A'; size as usize + 1];
    let h7 = custom_hasher.sum(&data).unwrap();
    assert_ne!(h1, h7);
    assert_ne!(h3, h7);
    assert_ne!(h4, h7);
    assert_ne!(h5, h7);
    assert_ne!(h6, h7);

    // test sampleSize < 1
    let hasher = Hasher::with_sample_size_and_threshold(0, size);
    let data: Vec<u8> = vec![b'A'; size as usize];
    let hash = hasher.sum(&data).unwrap();
    assert_eq!(
        hex::encode(hash.to_le_bytes()),
        "2d9123b54d37e9b8f94ab37a7eca6f40"
    )
}

#[test]
fn test_sum() {
    let tests = [
        (16384, 131072, 0, "00000000000000000000000000000000"),
        (16384, 131072, 1, "01659e2ec0f3c75bf39e43a41adb5d4f"),
        (16384, 131072, 127, "7f47671cc79d4374404b807249f3166e"),
        (16384, 131072, 128, "800183e5dbea2e5199ef7c8ea963a463"),
        (16384, 131072, 4095, "ff1f770d90d3773949d89880efa17e60"),
        (16384, 131072, 4096, "802048c26d66de432dbfc71afca6705d"),
        (16384, 131072, 131072, "8080085a3d3af2cb4b3a957811cdf370"),
        (16384, 131073, 131072, "808008282d3f3b53e1fd132cc51fcc1d"),
        (16384, 131072, 500000, "a0c21e44a0ba3bddee802a9d1c5332ca"),
        (50, 131072, 300000, "e0a712edd8815c606344aed13c44adcf"),
        (0, 100, 999, "e7078bfc9bdf7d7706adbd21002bb752"),
        (50, 9999, 999, "e7078bfc9bdf7d7706adbd21002bb752"),
        (250, 20, 999, "e7078bfc9bdf7d7706adbd21002bb752"),
        (250, 20, 1000, "e807ae87d3dafb5eb6518a5a256297e9"),
    ];

    for test in tests {
        let hasher = Hasher::with_sample_size_and_threshold(test.0, test.1);
        let content = m(test.2 as usize);
        let hash_str = hex::encode(hasher.sum(content.as_slice()).unwrap().to_le_bytes()).to_owned();
        assert_eq!(test.3, hash_str);
    }
}
