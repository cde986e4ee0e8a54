use blobstore::digest::content_hash;
use blobstore::ids::parse_uuid;
use blobstore::ids::BlobId;
use blobstore::row::DbRow;
use blobstore::service::RequestDeleteBlob;
use blobstore::service::RequestReadBlob;
use blobstore::service::RequestUploadBlob;
use blobstore::service::Service;
use blobstore::store::delete;
use blobstore::store::insert;
use blobstore::store::select;
use blobstore::store::select_without_body;
use blobstore::store::Store;
use blobstore::strategy::CompressionStrategy;

fn id_of(text: &str) -> BlobId {
    parse_uuid(text).unwrap()
}

fn create_fixture_row(id: BlobId) -> DbRow {
    let body = "TEST".as_bytes().to_vec();
    let hex = content_hash(&body);
    let size = body.len();
    let file_name = "test01.txt";
    DbRow {
        id,
        mime_type: "text/plain".to_string(),
        body,
        size_after_compress: size,
        size_before_compress: size,
        hash_before_compress: hex,
        compression_strategy: CompressionStrategy::Uncompressed,
        created_at: 1,
        filename: file_name.to_string(),
    }
}

fn init_service() -> Service {
    Service::new(Store::new())
}

#[test]
fn test_service_new() {
    Service::new(Store::new());
    assert!(true);
}

#[test]
fn test_service_upload() {
    let mut service = init_service();
    let id = id_of("84f48191-5daa-427b-af2f-5f7c523e9745");
    service.upload(RequestUploadBlob {
        id,
        body: "TEST".as_bytes().to_vec(),
        path: "/tmp/file.txt".to_string(),
    });
}

#[test]
fn test_service_read() {
    let mut service = init_service();
    let id = id_of("23885056-5dc3-4e17-9d25-1ad6ce459dca");
    let filename = "file.txt";
    service.upload(RequestUploadBlob {
        id,
        body: "TEST".as_bytes().to_vec(),
        path: "/tmp/file.txt".to_string(),
    });
    let response = service.read(RequestReadBlob {
        id,
        filename: filename.to_string(),
    });
    assert!(response.is_ok());
}

#[test]
fn test_service_read_when_exist_but_filename_is_difference_then_saved() {
    let mut service = init_service();
    let id = id_of("85b6809a-f2c2-4c52-84be-1d772413d3ae");
    service.upload(RequestUploadBlob {
        id,
        body: "TEST".as_bytes().to_vec(),
        path: "/tmp/file.txt".to_string(),
    });
    let filename = "file1.txt";
    let response = service.read(RequestReadBlob {
        id,
        filename: filename.to_string(),
    });
    assert!(response.is_err());
}

#[test]
fn test_service_read_when_exist_but_id_is_difference_then_saved() {
    let mut service = init_service();
    let id1 = id_of("c9484687-1b16-41ff-9eac-455cb173b783");
    service.upload(RequestUploadBlob {
        id: id1,
        body: "TEST".as_bytes().to_vec(),
        path: "/tmp/file.txt".to_string(),
    });
    let id2 = id_of("80d29c34-e174-48c5-b060-eaf878f66725");
    let filename = "file.txt";
    let response = service.read(RequestReadBlob {
        id: id2,
        filename: filename.to_string(),
    });
    assert!(response.is_err());
}

#[test]
fn test_service_delete() {
    let mut service = init_service();
    let id = id_of("ffbb2557-1d7a-44ec-b949-cd2a886551e1");
    service.upload(RequestUploadBlob {
        id,
        body: "TEST".as_bytes().to_vec(),
        path: "/tmp/file.txt".to_string(),
    });
    service.delete(RequestDeleteBlob {
        id,
        filename: "file.txt".to_string(),
    });
}

#[test]
fn test_insert() {
    let mut store = Store::new();
    let id = id_of("6ac3f044-000d-4e3f-af0c-98c0005c0695");
    insert(create_fixture_row(id), &mut store);
}

#[test]
fn test_select() {
    let mut store = Store::new();
    let id = id_of("a1be75d3-3de6-4d38-a182-396a7350387d");
    insert(create_fixture_row(id), &mut store);
    let result = select(id, "test01.txt".to_string(), &store);
    assert!(result.is_ok());
}

#[test]
fn test_select_when_not_exist() {
    let store = Store::new();
    let id = id_of("0dab7ced-38b1-4080-9768-71acb24385ae");
    let result = select(id, "test01.txt".to_string(), &store);
    assert!(result.is_err());
}

#[test]
fn test_select_without_body() {
    let mut store = Store::new();
    let id = id_of("e1987ed0-a0f1-403b-97b5-4754e9e86834");
    insert(create_fixture_row(id), &mut store);
    let result = select_without_body(id, "test01.txt".to_string(), &store);
    assert!(result.is_ok());
}

#[test]
fn test_select_without_body_when_not_exist() {
    let store = Store::new();
    let id = id_of("52209560-bd34-45f4-bca3-bfa2d1808ae7");
    let result = select_without_body(id, "test01.txt".to_string(), &store);
    assert!(result.is_err());
}

#[test]
fn test_delete() {
    let mut store = Store::new();
    let id = id_of("e0027c7d-4a1a-47cb-a098-ec612a3f3b87");
    insert(create_fixture_row(id), &mut store);
    assert!(select_without_body(id, "test01.txt".to_string(), &store).is_ok());
    delete(id, "test01.txt".to_string(), &mut store);
    assert!(select_without_body(id, "test01.txt".to_string(), &store).is_err());
}
