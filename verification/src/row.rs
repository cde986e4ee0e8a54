//! Blob records and the codec between their in-memory form and the stored
//! row form: the body as hexadecimal text, the identifier in canonical
//! hyphenated text, the strategy under its canonical name.

use vstd::prelude::*;

use crate::hexfmt::hex_decode;
use crate::hexfmt::hex_encode;
use crate::hexfmt::hex_of;
use crate::hexfmt::is_hex_text;
use crate::hexfmt::lemma_hex_of_injective;
use crate::ids::format_uuid;
use crate::ids::is_uuid_text;
use crate::ids::lemma_uuid_chars_injective;
use crate::ids::lemma_uuid_chars_wellformed;
use crate::ids::parse_uuid;
use crate::ids::uuid_chars;
use crate::ids::BlobId;
use crate::strategy::is_strategy_name;
use crate::strategy::lemma_strategy_name_injective;
use crate::strategy::strategy_name;
use crate::strategy::CompressionStrategy;

verus! {

/// A full blob record as the engine holds it in memory.
#[derive(Debug)]
pub struct DbRow {
    pub id: BlobId,
    pub mime_type: String,
    pub body: Vec<u8>,
    pub size_after_compress: usize,
    pub size_before_compress: usize,
    pub hash_before_compress: String,
    pub compression_strategy: CompressionStrategy,
    pub created_at: i64,
    pub filename: String,
}

/// A record as the metadata-only lookup reads it: every column but the body.
#[derive(Debug)]
pub struct DbRowWithoutBody {
    pub id: BlobId,
    pub mime_type: String,
    pub size_after_compress: usize,
    pub size_before_compress: usize,
    pub hash_before_compress: String,
    pub compression_strategy: CompressionStrategy,
    pub created_at: i64,
    pub filename: String,
}

/// The mathematical content of a full record.
pub struct DbRowModel {
    pub id: u128,
    pub mime_type: Seq<char>,
    pub body: Seq<u8>,
    pub size_after: int,
    pub size_before: int,
    pub hash: Seq<char>,
    pub strategy: CompressionStrategy,
    pub created_at: int,
    pub filename: Seq<char>,
}

/// The mathematical content of a record without its body.
pub struct DbRowMetaModel {
    pub id: u128,
    pub mime_type: Seq<char>,
    pub size_after: int,
    pub size_before: int,
    pub hash: Seq<char>,
    pub strategy: CompressionStrategy,
    pub created_at: int,
    pub filename: Seq<char>,
}

impl View for DbRow {
    type V = DbRowModel;

    open spec fn view(&self) -> DbRowModel {
        DbRowModel {
            id: self.id.value,
            mime_type: self.mime_type@,
            body: self.body@,
            size_after: self.size_after_compress as int,
            size_before: self.size_before_compress as int,
            hash: self.hash_before_compress@,
            strategy: self.compression_strategy,
            created_at: self.created_at as int,
            filename: self.filename@,
        }
    }
}

impl View for DbRowWithoutBody {
    type V = DbRowMetaModel;

    open spec fn view(&self) -> DbRowMetaModel {
        DbRowMetaModel {
            id: self.id.value,
            mime_type: self.mime_type@,
            size_after: self.size_after_compress as int,
            size_before: self.size_before_compress as int,
            hash: self.hash_before_compress@,
            strategy: self.compression_strategy,
            created_at: self.created_at as int,
            filename: self.filename@,
        }
    }
}

/// A row as the backing table stores it: identifier and body as text, the
/// strategy under its name, sizes and timestamp as integers.
#[derive(Debug)]
pub struct StoredRow {
    pub id: String,
    pub mime_type: String,
    pub body: String,
    pub size_after_compress: usize,
    pub size_before_compress: usize,
    pub hash_before_compress: String,
    pub compression_strategy: String,
    pub created_at: i64,
    pub filename: String,
}

/// The mathematical content of a stored row.
pub struct StoredRowModel {
    pub id: Seq<char>,
    pub mime_type: Seq<char>,
    pub body: Seq<char>,
    pub size_after: int,
    pub size_before: int,
    pub hash: Seq<char>,
    pub strategy: Seq<char>,
    pub created_at: int,
    pub filename: Seq<char>,
}

impl View for StoredRow {
    type V = StoredRowModel;

    open spec fn view(&self) -> StoredRowModel {
        StoredRowModel {
            id: self.id@,
            mime_type: self.mime_type@,
            body: self.body@,
            size_after: self.size_after_compress as int,
            size_before: self.size_before_compress as int,
            hash: self.hash_before_compress@,
            strategy: self.compression_strategy@,
            created_at: self.created_at as int,
            filename: self.filename@,
        }
    }
}

/// The stored form of a record: body rendered as hexadecimal text, the
/// identifier in canonical text, the strategy under its canonical name.
pub open spec fn encode_model(r: DbRowModel) -> StoredRowModel {
    StoredRowModel {
        id: uuid_chars(r.id),
        mime_type: r.mime_type,
        body: hex_of(r.body),
        size_after: r.size_after,
        size_before: r.size_before,
        hash: r.hash,
        strategy: strategy_name(r.strategy),
        created_at: r.created_at,
        filename: r.filename,
    }
}

/// A stored row that decodes back into a record: canonical identifier text,
/// hexadecimal body text, a known strategy name.
pub open spec fn stored_wf(s: StoredRowModel) -> bool {
    is_uuid_text(s.id) && is_hex_text(s.body) && is_strategy_name(s.strategy)
}

/// What decoding a stored row may reject, in the order the columns are read.
#[derive(Clone, Copy, PartialEq, Eq, Structural, Debug)]
pub enum RowDecodeError {
    BadId,
    BadBody,
    BadStrategy,
}

/// The rejection that a malformed stored row earns.
pub open spec fn decode_error_of(s: StoredRowModel) -> RowDecodeError {
    if !is_uuid_text(s.id) {
        RowDecodeError::BadId
    } else if !is_hex_text(s.body) {
        RowDecodeError::BadBody
    } else {
        RowDecodeError::BadStrategy
    }
}

/// Encoding always yields a well-formed stored row.
pub proof fn lemma_encode_model_wf(r: DbRowModel)
    ensures
        stored_wf(encode_model(r)),
{
    lemma_uuid_chars_wellformed(r.id);
    crate::hexfmt::lemma_hex_of_is_hex_text(r.body);
}

/// Encoding loses no information: equal stored rows come only from equal
/// records.
pub proof fn lemma_encode_model_injective(a: DbRowModel, b: DbRowModel)
    requires
        encode_model(a) == encode_model(b),
    ensures
        a == b,
{
    lemma_uuid_chars_injective(a.id, b.id);
    lemma_hex_of_injective(a.body, b.body);
    lemma_strategy_name_injective(a.strategy, b.strategy);
}

/// Encodes a record into its stored row form.
pub fn encode_row(row: &DbRow) -> (r: StoredRow)
    ensures
        r@ == encode_model(row@),
{
    StoredRow {
        id: format_uuid(row.id),
        mime_type: row.mime_type.clone(),
        body: hex_encode(&row.body),
        size_after_compress: row.size_after_compress,
        size_before_compress: row.size_before_compress,
        hash_before_compress: row.hash_before_compress.clone(),
        compression_strategy: row.compression_strategy.name(),
        created_at: row.created_at,
        filename: row.filename.clone(),
    }
}

/// Decodes a stored row back into a record.  Succeeds exactly on well-formed
/// rows; a malformed row is corruption, reported by the first column that
/// fails.
pub fn decode_row(row: &StoredRow) -> (r: Result<DbRow, RowDecodeError>)
    ensures
        r is Ok <==> stored_wf(row@),
        match r {
            Ok(d) => encode_model(d@) == row@,
            Err(e) => e == decode_error_of(row@),
        },
{
    let id = match parse_uuid(row.id.as_str()) {
        Some(v) => v,
        None => {
            return Err(RowDecodeError::BadId);
        },
    };
    let body = match hex_decode(row.body.as_str()) {
        Some(b) => b,
        None => {
            return Err(RowDecodeError::BadBody);
        },
    };
    let strat = match CompressionStrategy::from_name(row.compression_strategy.as_str()) {
        Some(s) => s,
        None => {
            return Err(RowDecodeError::BadStrategy);
        },
    };
    Ok(
        DbRow {
            id,
            mime_type: row.mime_type.clone(),
            body,
            size_after_compress: row.size_after_compress,
            size_before_compress: row.size_before_compress,
            hash_before_compress: row.hash_before_compress.clone(),
            compression_strategy: strat,
            created_at: row.created_at,
            filename: row.filename.clone(),
        },
    )
}

/// How a metadata record relates to the stored row it was read from: every
/// column but the body agrees.
pub open spec fn meta_matches(m: DbRowMetaModel, s: StoredRowModel) -> bool {
    &&& uuid_chars(m.id) == s.id
    &&& m.mime_type == s.mime_type
    &&& m.size_after == s.size_after
    &&& m.size_before == s.size_before
    &&& m.hash == s.hash
    &&& strategy_name(m.strategy) == s.strategy
    &&& m.created_at == s.created_at
    &&& m.filename == s.filename
}

/// A stored row whose non-body columns decode: the body column is never
/// read, so it is not checked.
pub open spec fn stored_meta_wf(s: StoredRowModel) -> bool {
    is_uuid_text(s.id) && is_strategy_name(s.strategy)
}

/// The rejection that a malformed stored row earns when its body is not
/// read.
pub open spec fn meta_decode_error_of(s: StoredRowModel) -> RowDecodeError {
    if !is_uuid_text(s.id) {
        RowDecodeError::BadId
    } else {
        RowDecodeError::BadStrategy
    }
}

/// Decodes every column of a stored row but the body.
pub fn decode_row_without_body(row: &StoredRow) -> (r: Result<DbRowWithoutBody, RowDecodeError>)
    ensures
        r is Ok <==> stored_meta_wf(row@),
        match r {
            Ok(m) => meta_matches(m@, row@),
            Err(e) => e == meta_decode_error_of(row@),
        },
{
    let id = match parse_uuid(row.id.as_str()) {
        Some(v) => v,
        None => {
            return Err(RowDecodeError::BadId);
        },
    };
    let strat = match CompressionStrategy::from_name(row.compression_strategy.as_str()) {
        Some(s) => s,
        None => {
            return Err(RowDecodeError::BadStrategy);
        },
    };
    Ok(
        DbRowWithoutBody {
            id,
            mime_type: row.mime_type.clone(),
            size_after_compress: row.size_after_compress,
            size_before_compress: row.size_before_compress,
            hash_before_compress: row.hash_before_compress.clone(),
            compression_strategy: strat,
            created_at: row.created_at,
            filename: row.filename.clone(),
        },
    )
}

} // verus!
