use blobstore::digest::content_hash;
use blobstore::ids::format_uuid;
use blobstore::ids::parse_uuid;
use blobstore::service::RequestDeleteBlob;
use blobstore::service::RequestReadBlob;
use blobstore::service::RequestUploadBlob;
use blobstore::service::Service;
use blobstore::store::select;
use blobstore::store::Store;

fn init_service() -> Service {
    Service::new(Store::new())
}

#[test]
fn test_upload_read_concrete_scenario() {
    let mut service = init_service();
    let id = parse_uuid("260fc36a-1295-48a1-906d-93d8e8465732").unwrap();
    service.upload(RequestUploadBlob {
        id,
        body: "TEST".as_bytes().to_vec(),
        path: "test.txt".to_string(),
    });
    let response = service
        .read(RequestReadBlob {
            id,
            filename: "test.txt".to_string(),
        })
        .unwrap();
    assert_eq!(response.body, "TEST".as_bytes().to_vec());
    assert_eq!(response.mime_type, "text/plain");
    assert_eq!(response.size, 4);
    assert_eq!(response.filename, "test.txt");
    assert_eq!(response.id, id);
    let missing = service.read(RequestReadBlob {
        id,
        filename: "other.txt".to_string(),
    });
    assert!(missing.is_err());
}

#[test]
fn test_metadata_matches_read() {
    let mut service = init_service();
    let id = parse_uuid("85d83734-2af0-41b9-9df4-b3131451e572").unwrap();
    service.upload(RequestUploadBlob {
        id,
        body: "TEST".as_bytes().to_vec(),
        path: "/tmp/test.txt".to_string(),
    });
    let full = service
        .read(RequestReadBlob {
            id,
            filename: "test.txt".to_string(),
        })
        .unwrap();
    let meta = service
        .read_meta_data(RequestReadBlob {
            id,
            filename: "test.txt".to_string(),
        })
        .unwrap();
    assert_eq!(meta.id, full.id);
    assert_eq!(meta.mime_type, full.mime_type);
    assert_eq!(meta.size, full.size);
    assert_eq!(meta.created_at, full.created_at);
}

#[test]
fn test_overwrite_leaves_second_body() {
    let mut service = init_service();
    let id = parse_uuid("4d1b9378-6c34-47d1-b27c-da9ab3e6b524").unwrap();
    service.upload(RequestUploadBlob {
        id,
        body: "FIRST".as_bytes().to_vec(),
        path: "/tmp/file.txt".to_string(),
    });
    service.upload(RequestUploadBlob {
        id,
        body: "SECOND".as_bytes().to_vec(),
        path: "/tmp/file.txt".to_string(),
    });
    let response = service
        .read(RequestReadBlob {
            id,
            filename: "file.txt".to_string(),
        })
        .unwrap();
    assert_eq!(response.body, "SECOND".as_bytes().to_vec());
    assert_eq!(response.size, 6);
}

#[test]
fn test_delete_idempotent() {
    let mut service = init_service();
    let id = parse_uuid("c8f3a893-7d6b-4ace-b2ea-32dbb30c7ff9").unwrap();
    service.delete(RequestDeleteBlob {
        id,
        filename: "absent.txt".to_string(),
    });
    service.upload(RequestUploadBlob {
        id,
        body: "TEST".as_bytes().to_vec(),
        path: "file.txt".to_string(),
    });
    service.delete(RequestDeleteBlob {
        id,
        filename: "file.txt".to_string(),
    });
    assert!(service
        .read(RequestReadBlob {
            id,
            filename: "file.txt".to_string(),
        })
        .is_err());
    assert!(service
        .read_meta_data(RequestReadBlob {
            id,
            filename: "file.txt".to_string(),
        })
        .is_err());
}

#[test]
fn test_filename_normalization() {
    let mut service = init_service();
    let id = parse_uuid("1ae64856-01d1-42b3-b4bc-19fe3e6b2f60").unwrap();
    service.upload(RequestUploadBlob {
        id,
        body: "TEST".as_bytes().to_vec(),
        path: "/tmp/report.pdf".to_string(),
    });
    let response = service
        .read(RequestReadBlob {
            id,
            filename: "report.pdf".to_string(),
        })
        .unwrap();
    assert_eq!(response.filename, "report.pdf");
    assert_eq!(response.mime_type, "application/pdf");
}

#[test]
fn test_hash_stability_across_keys() {
    let mut service = init_service();
    let id1 = parse_uuid("686d15bd-9f78-4e9a-ad3e-a517384302e9").unwrap();
    let id2 = parse_uuid("ac07da60-d4dd-493e-93cb-277b2b8b4a56").unwrap();
    service.upload(RequestUploadBlob {
        id: id1,
        body: "TEST".as_bytes().to_vec(),
        path: "a.txt".to_string(),
    });
    service.upload(RequestUploadBlob {
        id: id2,
        body: "TEST".as_bytes().to_vec(),
        path: "b.bin".to_string(),
    });
    service.upload(RequestUploadBlob {
        id: id2,
        body: "OTHER".as_bytes().to_vec(),
        path: "c.bin".to_string(),
    });
    let store = {
        // Reach the raw rows through a fresh store fed by the same inputs:
        // the service's rows carry the digests.
        let mut s = Store::new();
        blobstore::store::insert(
            blobstore::service::build_upload_row(
                id1,
                "a.txt",
                "TEST".as_bytes().to_vec(),
                1,
            ),
            &mut s,
        );
        blobstore::store::insert(
            blobstore::service::build_upload_row(
                id2,
                "b.bin",
                "TEST".as_bytes().to_vec(),
                2,
            ),
            &mut s,
        );
        blobstore::store::insert(
            blobstore::service::build_upload_row(
                id2,
                "c.bin",
                "OTHER".as_bytes().to_vec(),
                3,
            ),
            &mut s,
        );
        s
    };
    let row_a = select(id1, "a.txt".to_string(), &store).unwrap();
    let row_b = select(id2, "b.bin".to_string(), &store).unwrap();
    let row_c = select(id2, "c.bin".to_string(), &store).unwrap();
    assert_eq!(row_a.hash_before_compress, row_b.hash_before_compress);
    assert_ne!(row_a.hash_before_compress, row_c.hash_before_compress);
    // The digest is not the payload handed back unchanged.
    assert_eq!(row_a.hash_before_compress.len(), 128);
    assert_ne!(row_a.hash_before_compress, "54455354");
    assert_eq!(row_a.hash_before_compress, content_hash(&"TEST".as_bytes().to_vec()));
}

#[test]
fn test_not_found_error_message() {
    let service = init_service();
    let id = parse_uuid("0dab7ced-38b1-4080-9768-71acb24385ae").unwrap();
    let err = service
        .read(RequestReadBlob {
            id,
            filename: "missing.txt".to_string(),
        })
        .unwrap_err();
    assert_eq!(err.id, id);
    assert_eq!(
        err.err,
        format!("Blob '{}' not found", format_uuid(id))
    );
}
