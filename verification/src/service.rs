//! The blob service: the four public operations over the keyed store.
//! Upload derives the filename, digest, mime type and sizes of a payload
//! and writes the encoded row; read and metadata-read look a record up
//! under its composite key; delete removes it.

use vstd::prelude::*;

use crate::clock::now_timestamp_millis;
use crate::digest::content_hash;
use crate::digest::content_hash_chars;
use crate::hexfmt::hex_of;
use crate::hexfmt::lemma_hex_of_injective;
use crate::ids::lemma_uuid_chars_injective;
use crate::ids::uuid_chars;
use crate::ids::BlobId;
use crate::mimetype::guess_mime_type;
use crate::mimetype::mime_guess_of;
use crate::pathname::basename;
use crate::pathname::basename_of;
use crate::row::encode_model;
use crate::row::DbRow;
use crate::row::DbRowModel;
use crate::row::StoredRowModel;
use crate::store::blob_key;
use crate::store::not_found_message;
use crate::store::ErrNoId;
use crate::store::Store;
use crate::strategy::CompressionStrategy;

verus! {

pub struct RequestReadBlob {
    pub id: BlobId,
    pub filename: String,
}

pub struct RequestDeleteBlob {
    pub id: BlobId,
    pub filename: String,
}

pub struct RequestUploadBlob {
    pub id: BlobId,
    pub body: Vec<u8>,
    pub path: String,
}

#[derive(Debug)]
pub struct ResponseReadBlob {
    pub id: BlobId,
    pub body: Vec<u8>,
    pub mime_type: String,
    pub size: usize,
    pub created_at: i64,
    pub filename: String,
}

#[derive(Debug)]
pub struct ResponseReadMetaDataBlob {
    pub id: BlobId,
    pub mime_type: String,
    pub size: usize,
    pub created_at: i64,
}

/// The record that an upload of `body` under `id` and `path` builds at time
/// `created_at`: digest of the raw payload, mime type guessed from the path,
/// both sizes equal to the payload length under the identity strategy, and
/// the path's basename as filename.
pub open spec fn upload_row_model(id: u128, path: Seq<char>, body: Seq<u8>, created_at: int) -> DbRowModel {
    DbRowModel {
        id,
        mime_type: mime_guess_of(path),
        body,
        size_after: body.len() as int,
        size_before: body.len() as int,
        hash: content_hash_chars(body),
        strategy: CompressionStrategy::Uncompressed,
        created_at,
        filename: basename(path),
    }
}

/// The key under which an upload stores its record: the identifier and the
/// basename of the supplied path.
pub open spec fn upload_key(id: u128, path: Seq<char>) -> (Seq<char>, Seq<char>) {
    blob_key(id, basename(path))
}

/// How a full read response relates to the stored row it was read from.
pub open spec fn read_response_matches(resp: ResponseReadBlob, s: StoredRowModel) -> bool {
    &&& uuid_chars(resp.id.value) == s.id
    &&& hex_of(resp.body@) == s.body
    &&& resp.mime_type@ == s.mime_type
    &&& resp.size as int == s.size_before
    &&& resp.created_at as int == s.created_at
    &&& resp.filename@ == s.filename
}

/// How a metadata response relates to the stored row it was read from.
pub open spec fn meta_response_matches(resp: ResponseReadMetaDataBlob, s: StoredRowModel) -> bool {
    &&& uuid_chars(resp.id.value) == s.id
    &&& resp.mime_type@ == s.mime_type
    &&& resp.size as int == s.size_before
    &&& resp.created_at as int == s.created_at
}

/// Builds the record that an upload writes.
pub fn build_upload_row(id: BlobId, path: &str, body: Vec<u8>, created_at: i64) -> (r: DbRow)
    ensures
        r@ == upload_row_model(id.value, path@, body@, created_at as int),
{
    let hash = content_hash(&body);
    let mime_type = guess_mime_type(path);
    let filename = basename_of(path);
    let size = body.len();
    DbRow {
        id,
        mime_type,
        body,
        size_after_compress: size,
        size_before_compress: size,
        hash_before_compress: hash,
        compression_strategy: CompressionStrategy::Uncompressed,
        created_at,
        filename,
    }
}

/// The blob service over its backing store.
pub struct Service {
    store: Store,
}

impl View for Service {
    type V = Map<(Seq<char>, Seq<char>), StoredRowModel>;

    closed spec fn view(&self) -> Map<(Seq<char>, Seq<char>), StoredRowModel> {
        self.store@
    }
}

impl Service {
    pub closed spec fn wf(self) -> bool {
        self.store.wf()
    }

    /// Wraps a backing store.
    pub fn new(store: Store) -> (s: Service)
        requires
            store.wf(),
        ensures
            s.wf(),
            s@ == store@,
    {
        Service { store }
    }

    /// Reads the full record under the requested key.
    pub fn read(&self, request: RequestReadBlob) -> (r: Result<ResponseReadBlob, ErrNoId>)
        requires
            self.wf(),
        ensures
            match r {
                Ok(resp) => self@.contains_key(blob_key(request.id.value, request.filename@))
                    && read_response_matches(
                    resp,
                    self@[blob_key(request.id.value, request.filename@)],
                ),
                Err(e) => !self@.contains_key(blob_key(request.id.value, request.filename@))
                    && e.id == request.id && e.err@ == not_found_message(request.id.value),
            },
    {
        match crate::store::select(request.id, request.filename, &self.store) {
            Ok(row) => Ok(
                ResponseReadBlob {
                    id: row.id,
                    body: row.body,
                    mime_type: row.mime_type,
                    size: row.size_before_compress,
                    created_at: row.created_at,
                    filename: row.filename,
                },
            ),
            Err(e) => Err(e),
        }
    }

    /// Reads the record under the requested key without its body.
    pub fn read_meta_data(&self, request: RequestReadBlob) -> (r: Result<
        ResponseReadMetaDataBlob,
        ErrNoId,
    >)
        requires
            self.wf(),
        ensures
            match r {
                Ok(resp) => self@.contains_key(blob_key(request.id.value, request.filename@))
                    && meta_response_matches(
                    resp,
                    self@[blob_key(request.id.value, request.filename@)],
                ),
                Err(e) => !self@.contains_key(blob_key(request.id.value, request.filename@))
                    && e.id == request.id && e.err@ == not_found_message(request.id.value),
            },
    {
        match crate::store::select_without_body(request.id, request.filename, &self.store) {
            Ok(row) => Ok(
                ResponseReadMetaDataBlob {
                    id: row.id,
                    mime_type: row.mime_type,
                    size: row.size_before_compress,
                    created_at: row.created_at,
                },
            ),
            Err(e) => Err(e),
        }
    }

    /// Removes the record under the requested key; completes whether or not
    /// one exists.
    pub fn delete(&mut self, request: RequestDeleteBlob)
        requires
            old(self).wf(),
        ensures
            final(self).wf(),
            final(self)@ == old(self)@.remove(blob_key(request.id.value, request.filename@)),
    {
        crate::store::delete(request.id, request.filename, &mut self.store)
    }

    /// Stores a payload under the identifier and the basename of the
    /// supplied path, stamped with the current time, replacing any record
    /// under that key.
    pub fn upload(&mut self, request: RequestUploadBlob)
        requires
            old(self).wf(),
            basename(request.path@).len() > 0,
        ensures
            final(self).wf(),
            exists|t: int|
                final(self)@ == old(self)@.insert(
                    upload_key(request.id.value, request.path@),
                    encode_model(upload_row_model(request.id.value, request.path@, request.body@, t)),
                ),
    {
        let created_at = now_timestamp_millis();
        let row = build_upload_row(request.id, request.path.as_str(), request.body, created_at);
        crate::store::insert(row, &mut self.store);
        proof {
            assert(self@ == old(self)@.insert(
                upload_key(request.id.value, request.path@),
                encode_model(
                    upload_row_model(
                        request.id.value,
                        request.path@,
                        request.body@,
                        created_at as int,
                    ),
                ),
            ));
        }
    }
}

/// Wraps a backing store in a service.
pub fn create_service(store: Store) -> (s: Service)
    requires
        store.wf(),
    ensures
        s.wf(),
        s@ == store@,
{
    Service::new(store)
}

/// Round trip: after an upload, whatever full read response matches the row
/// under the upload key carries the uploaded payload byte for byte, the
/// mime type inferred from the path, the payload's length as size, the
/// upload's identifier, the path's basename, and the upload's timestamp.
pub proof fn lemma_upload_read_round_trip(
    m: Map<(Seq<char>, Seq<char>), StoredRowModel>,
    id: u128,
    path: Seq<char>,
    body: Seq<u8>,
    t: int,
    resp: ResponseReadBlob,
)
    requires
        read_response_matches(
            resp,
            m.insert(upload_key(id, path), encode_model(upload_row_model(id, path, body, t)))[
                upload_key(id, path)],
        ),
    ensures
        resp.body@ == body,
        resp.mime_type@ == mime_guess_of(path),
        resp.size as int == body.len() as int,
        resp.id.value == id,
        resp.filename@ == basename(path),
        resp.created_at as int == t,
{
    let s = encode_model(upload_row_model(id, path, body, t));
    assert(m.insert(upload_key(id, path), s)[upload_key(id, path)] == s);
    lemma_uuid_chars_injective(resp.id.value, id);
    lemma_hex_of_injective(resp.body@, body);
}

/// Metadata omits the body but matches the other fields: a metadata read
/// and a full read of the same stored row agree on identifier, mime type,
/// size and creation time.
pub proof fn lemma_metadata_matches_read(
    s: StoredRowModel,
    resp: ResponseReadBlob,
    meta: ResponseReadMetaDataBlob,
)
    requires
        read_response_matches(resp, s),
        meta_response_matches(meta, s),
    ensures
        meta.id == resp.id,
        meta.mime_type@ == resp.mime_type@,
        meta.size == resp.size,
        meta.created_at == resp.created_at,
{
    lemma_uuid_chars_injective(meta.id.value, resp.id.value);
}

/// Key disambiguation: a record stored under one composite key is invisible
/// under any other key, whether the identifier or the filename differs.
pub proof fn lemma_key_disambiguation(
    m: Map<(Seq<char>, Seq<char>), StoredRowModel>,
    id1: u128,
    f1: Seq<char>,
    id2: u128,
    f2: Seq<char>,
    v: StoredRowModel,
)
    requires
        id1 != id2 || f1 != f2,
        !m.contains_key(blob_key(id2, f2)),
    ensures
        !m.insert(blob_key(id1, f1), v).contains_key(blob_key(id2, f2)),
{
    if blob_key(id1, f1) == blob_key(id2, f2) {
        lemma_uuid_chars_injective(id1, id2);
        assert(false);
    }
}

/// Overwrite semantics: a second write to the same key leaves exactly the
/// second record; no trace of the first remains.
pub proof fn lemma_overwrite(
    m: Map<(Seq<char>, Seq<char>), StoredRowModel>,
    k: (Seq<char>, Seq<char>),
    v1: StoredRowModel,
    v2: StoredRowModel,
)
    ensures
        m.insert(k, v1).insert(k, v2) == m.insert(k, v2),
        m.insert(k, v2)[k] == v2,
{
    assert(m.insert(k, v1).insert(k, v2) =~= m.insert(k, v2));
}

/// Delete idempotence: removing an absent key changes nothing, and after a
/// removal the key is absent.
pub proof fn lemma_delete_idempotent(
    m: Map<(Seq<char>, Seq<char>), StoredRowModel>,
    k: (Seq<char>, Seq<char>),
)
    ensures
        !m.contains_key(k) ==> m.remove(k) == m,
        !m.remove(k).contains_key(k),
{
    if !m.contains_key(k) {
        assert(m.remove(k) =~= m);
    }
}

/// Hash stability: the stored digest is a function of the payload bytes
/// alone — uploads of equal bodies carry equal digests, whatever their
/// identifiers, paths or times.
pub proof fn lemma_hash_depends_on_body_alone(
    id1: u128,
    path1: Seq<char>,
    t1: int,
    id2: u128,
    path2: Seq<char>,
    t2: int,
    body: Seq<u8>,
)
    ensures
        upload_row_model(id1, path1, body, t1).hash == upload_row_model(id2, path2, body, t2).hash,
{
}

} // verus!
