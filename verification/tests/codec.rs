use blobstore::hexfmt::hex_decode;
use blobstore::hexfmt::hex_encode;
use blobstore::ids::format_uuid;
use blobstore::ids::parse_uuid;
use blobstore::ids::BlobId;
use blobstore::pathname::basename_of;
use blobstore::pathname::has_basename;
use blobstore::row::decode_row;
use blobstore::row::encode_row;
use blobstore::row::DbRow;
use blobstore::row::RowDecodeError;
use blobstore::row::StoredRow;
use blobstore::service::build_upload_row;
use blobstore::strategy::CompressionStrategy;

#[test]
fn test_hex_encode_values() {
    assert_eq!(hex_encode(&vec![]), "");
    assert_eq!(hex_encode(&vec![0x00, 0xff]), "00ff");
    assert_eq!(hex_encode(&vec![0x12, 0xab, 0x0f]), "12ab0f");
    assert_eq!(hex_encode(&"TEST".as_bytes().to_vec()), "54455354");
}

#[test]
fn test_hex_decode_values() {
    assert_eq!(hex_decode("00ff"), Some(vec![0x00, 0xff]));
    assert_eq!(hex_decode(""), Some(vec![]));
    assert_eq!(hex_decode("54455354"), Some("TEST".as_bytes().to_vec()));
    assert_eq!(hex_decode("0"), None);
    assert_eq!(hex_decode("0g"), None);
    assert_eq!(hex_decode("AB"), None);
}

#[test]
fn test_hex_round_trip() {
    let bytes: Vec<u8> = (0u8..=255).collect();
    let text = hex_encode(&bytes);
    assert_eq!(hex_decode(&text), Some(bytes));
}

#[test]
fn test_format_uuid_values() {
    assert_eq!(
        format_uuid(BlobId { value: 0 }),
        "00000000-0000-0000-0000-000000000000"
    );
    assert_eq!(
        format_uuid(BlobId { value: u128::MAX }),
        "ffffffff-ffff-ffff-ffff-ffffffffffff"
    );
}

#[test]
fn test_parse_uuid_round_trip() {
    let text = "a1be75d3-3de6-4d38-a182-396a7350387d";
    let id = parse_uuid(text).unwrap();
    assert_eq!(format_uuid(id), text);
}

#[test]
fn test_parse_uuid_rejects_malformed() {
    assert_eq!(parse_uuid(""), None);
    assert_eq!(parse_uuid("a1be75d3-3de6-4d38-a182-396a7350387"), None);
    assert_eq!(parse_uuid("a1be75d3x3de6-4d38-a182-396a7350387d"), None);
    assert_eq!(parse_uuid("A1BE75D3-3DE6-4D38-A182-396A7350387D"), None);
    assert_eq!(parse_uuid("a1be75d3-3de6-4d38-a182-396a7350387g"), None);
}

#[test]
fn test_strategy_names() {
    assert_eq!(CompressionStrategy::Uncompressed.name(), "uncompressed");
    assert_eq!(CompressionStrategy::Lz4.name(), "lz4");
    assert_eq!(
        CompressionStrategy::from_name("uncompressed"),
        Some(CompressionStrategy::Uncompressed)
    );
    assert_eq!(
        CompressionStrategy::from_name("lz4"),
        Some(CompressionStrategy::Lz4)
    );
    assert_eq!(CompressionStrategy::from_name("zip"), None);
    assert_eq!(CompressionStrategy::from_name(""), None);
}

#[test]
fn test_basename_values() {
    assert_eq!(basename_of("/tmp/report.pdf"), "report.pdf");
    assert_eq!(basename_of("file.txt"), "file.txt");
    assert_eq!(basename_of("a/b/c"), "c");
    assert_eq!(basename_of("/tmp/"), "");
    assert!(has_basename("/tmp/report.pdf"));
    assert!(!has_basename("/tmp/"));
    assert!(!has_basename(""));
}

#[test]
fn test_mime_inference() {
    let id = parse_uuid("6ac3f044-000d-4e3f-af0c-98c0005c0695").unwrap();
    let plain = build_upload_row(id, "test.txt", "TEST".as_bytes().to_vec(), 1);
    assert_eq!(plain.mime_type, "text/plain");
    let pdf = build_upload_row(id, "/tmp/report.pdf", "TEST".as_bytes().to_vec(), 1);
    assert_eq!(pdf.mime_type, "application/pdf");
    let unknown = build_upload_row(id, "noextension", "TEST".as_bytes().to_vec(), 1);
    assert_eq!(unknown.mime_type, "application/octet-stream");
}

fn fixture_row() -> DbRow {
    DbRow {
        id: parse_uuid("6ac3f044-000d-4e3f-af0c-98c0005c0695").unwrap(),
        mime_type: "text/plain".to_string(),
        body: "TEST".as_bytes().to_vec(),
        size_after_compress: 4,
        size_before_compress: 4,
        hash_before_compress: "00".to_string(),
        compression_strategy: CompressionStrategy::Uncompressed,
        created_at: 1,
        filename: "test01.txt".to_string(),
    }
}

#[test]
fn test_encode_row_fields() {
    let stored = encode_row(&fixture_row());
    assert_eq!(stored.id, "6ac3f044-000d-4e3f-af0c-98c0005c0695");
    assert_eq!(stored.body, "54455354");
    assert_eq!(stored.compression_strategy, "uncompressed");
    assert_eq!(stored.mime_type, "text/plain");
    assert_eq!(stored.size_before_compress, 4);
    assert_eq!(stored.created_at, 1);
    assert_eq!(stored.filename, "test01.txt");
}

#[test]
fn test_decode_row_round_trip() {
    let row = fixture_row();
    let decoded = decode_row(&encode_row(&row)).unwrap();
    assert_eq!(decoded.id, row.id);
    assert_eq!(decoded.mime_type, row.mime_type);
    assert_eq!(decoded.body, row.body);
    assert_eq!(decoded.size_after_compress, row.size_after_compress);
    assert_eq!(decoded.size_before_compress, row.size_before_compress);
    assert_eq!(decoded.hash_before_compress, row.hash_before_compress);
    assert_eq!(decoded.created_at, row.created_at);
    assert_eq!(decoded.filename, row.filename);
}

fn stored_fixture() -> StoredRow {
    encode_row(&fixture_row())
}

#[test]
fn test_decode_row_bad_id() {
    let mut stored = stored_fixture();
    stored.id = "not-a-uuid".to_string();
    assert_eq!(decode_row(&stored).unwrap_err(), RowDecodeError::BadId);
}

#[test]
fn test_decode_row_bad_body() {
    let mut stored = stored_fixture();
    stored.body = "zz".to_string();
    assert_eq!(decode_row(&stored).unwrap_err(), RowDecodeError::BadBody);
}

#[test]
fn test_decode_row_bad_strategy() {
    let mut stored = stored_fixture();
    stored.compression_strategy = "gzip".to_string();
    assert_eq!(
        decode_row(&stored).unwrap_err(),
        RowDecodeError::BadStrategy
    );
}
