use minihttp::compression::Compression;

#[test]
fn test_gzip_compression() {
    let data = b"Hello, World! This is a test string for compression.";
    let compressed = Compression::Gzip.compress(data).unwrap();
    assert_ne!(compressed, data.to_vec());
    assert_eq!(Compression::Gzip.decompress(&compressed).unwrap(), data.to_vec());
}

#[test]
fn test_deflate_compression() {
    let data = b"Hello, World! This is a test string for compression.";
    let compressed = Compression::Deflate.compress(data).unwrap();
    assert_ne!(compressed, data.to_vec());
    assert_eq!(Compression::Deflate.decompress(&compressed).unwrap(), data.to_vec());
}

#[test]
fn test_compression_shrinks_repetitive_input() {
    let data = vec![b'a'; 1000];
    for c in [Compression::Gzip, Compression::Deflate, Compression::Brotli] {
        let compressed = c.compress(&data).unwrap();
        assert!(compressed.len() < data.len());
        assert_eq!(c.decompress(&compressed).unwrap(), data);
    }
}

#[test]
fn test_brotli_compression() {
    let data = b"Hello, World! This is a test string for compression.";
    let compressed = Compression::Brotli.compress(data).unwrap();
    assert!(compressed.len() < data.len());
}

#[test]
fn test_from_accept_encoding() {
    let encodings = vec![b"gzip".to_vec(), b"deflate".to_vec()];
    assert_eq!(Compression::from_accept_encoding(&encodings), Compression::Gzip);

    let encodings = vec![b"br".to_vec()];
    assert_eq!(Compression::from_accept_encoding(&encodings), Compression::Brotli);

    let encodings = vec![b"identity".to_vec()];
    assert_eq!(Compression::from_accept_encoding(&encodings), Compression::Identity);
}

#[test]
fn test_from_accept_encoding_first_recognized_wins() {
    let encodings = vec![b"deflate".to_vec()];
    assert_eq!(Compression::from_accept_encoding(&encodings), Compression::Deflate);

    let encodings: Vec<Vec<u8>> = vec![];
    assert_eq!(Compression::from_accept_encoding(&encodings), Compression::Identity);

    let encodings = vec![b"zstd".to_vec(), b"deflate".to_vec(), b"gzip".to_vec()];
    assert_eq!(Compression::from_accept_encoding(&encodings), Compression::Deflate);
}

#[test]
fn test_round_trip_gzip() {
    let data = b"arbitrary bytes \x00\x01\xff with everything in them".to_vec();
    assert_eq!(Compression::Gzip.round_trip(&data).unwrap(), data);
    let empty: Vec<u8> = Vec::new();
    assert_eq!(Compression::Gzip.round_trip(&empty).unwrap(), empty);
}

#[test]
fn test_round_trip_deflate() {
    let data = b"arbitrary bytes \x00\x01\xff with everything in them".to_vec();
    assert_eq!(Compression::Deflate.round_trip(&data).unwrap(), data);
    let empty: Vec<u8> = Vec::new();
    assert_eq!(Compression::Deflate.round_trip(&empty).unwrap(), empty);
}

#[test]
fn test_round_trip_brotli() {
    let data = b"arbitrary bytes \x00\x01\xff with everything in them".to_vec();
    assert_eq!(Compression::Brotli.round_trip(&data).unwrap(), data);
    let empty: Vec<u8> = Vec::new();
    assert_eq!(Compression::Brotli.round_trip(&empty).unwrap(), empty);
}

#[test]
fn test_round_trip_identity() {
    let data = b"left alone".to_vec();
    assert_eq!(Compression::Identity.round_trip(&data).unwrap(), data);
    assert_eq!(Compression::Identity.compress(&data).unwrap(), data);
}

#[test]
fn test_decompress_rejects_garbage() {
    let garbage = b"this is not a gzip stream".to_vec();
    assert!(Compression::Gzip.decompress(&garbage).is_err());
}

#[test]
fn test_compression_names() {
    assert_eq!(Compression::Gzip.name(), "gzip");
    assert_eq!(Compression::Deflate.name(), "deflate");
    assert_eq!(Compression::Brotli.name(), "br");
    assert_eq!(Compression::Identity.name(), "identity");
}
