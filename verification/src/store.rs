//! The keyed row store: the backing table of stored rows, addressed by the
//! composite key (identifier text, filename).  Insert replaces any row under
//! the same key, lookups filter on both columns together, and delete of an
//! absent key is a no-op.

use vstd::prelude::*;
use vstd::string::StringExecFns;

use crate::ids::format_uuid;
use crate::ids::uuid_chars;
use crate::ids::BlobId;
use crate::row::decode_row;
use crate::row::decode_row_without_body;
use crate::row::encode_model;
use crate::row::encode_row;
use crate::row::lemma_encode_model_wf;
use crate::row::meta_matches;
use crate::row::stored_wf;
use crate::row::DbRow;
use crate::row::DbRowWithoutBody;
use crate::row::StoredRow;
use crate::row::StoredRowModel;

verus! {

/// The one expected, recoverable failure: no row under the requested key.
#[derive(Debug)]
pub struct ErrNoId {
    pub id: BlobId,
    pub err: String,
}

/// The text of the lookup-failure message.
pub open spec fn not_found_message(v: u128) -> Seq<char> {
    "Blob '"@ + uuid_chars(v) + "' not found"@
}

/// Builds the lookup failure for an identifier.
pub fn not_found_error(id: BlobId) -> (e: ErrNoId)
    ensures
        e.id == id,
        e.err@ == not_found_message(id.value),
{
    let mut m = String::from_str("Blob '");
    let id_text = format_uuid(id);
    m.append(id_text.as_str());
    m.append("' not found");
    proof {
        assert(m@ =~= not_found_message(id.value));
    }
    ErrNoId { id, err: m }
}

/// The composite key under which a record is stored.
pub open spec fn blob_key(id: u128, filename: Seq<char>) -> (Seq<char>, Seq<char>) {
    (uuid_chars(id), filename)
}

/// The key columns of a stored row.
pub open spec fn row_key(s: StoredRowModel) -> (Seq<char>, Seq<char>) {
    (s.id, s.filename)
}

/// The table that a sequence of rows represents: a map from key columns to
/// the row, later rows shadowing earlier ones.
pub open spec fn table_of(rs: Seq<StoredRowModel>) -> Map<
    (Seq<char>, Seq<char>),
    StoredRowModel,
>
    decreases rs.len(),
{
    if rs.len() == 0 {
        Map::empty()
    } else {
        table_of(rs.drop_last()).insert(row_key(rs.last()), rs.last())
    }
}

/// No two rows share their key columns.
pub open spec fn unique_keys(rs: Seq<StoredRowModel>) -> bool {
    forall|i: int, j: int|
        #![trigger row_key(rs[i]), row_key(rs[j])]
        0 <= i < j < rs.len() ==> row_key(rs[i]) != row_key(rs[j])
}

pub proof fn lemma_unique_keys_drop_last(rs: Seq<StoredRowModel>)
    requires
        unique_keys(rs),
        rs.len() > 0,
    ensures
        unique_keys(rs.drop_last()),
{
    let dl = rs.drop_last();
    assert forall|i: int, j: int|
        #![trigger row_key(dl[i]), row_key(dl[j])]
        0 <= i < j < dl.len() implies row_key(dl[i]) != row_key(dl[j]) by {
        assert(dl[i] == rs[i] && dl[j] == rs[j]);
        assert(row_key(rs[i]) != row_key(rs[j]));
    }
}

/// A key is in the table exactly when some row carries it.
pub proof fn lemma_table_contains(rs: Seq<StoredRowModel>, k: (Seq<char>, Seq<char>))
    ensures
        table_of(rs).contains_key(k) <==> exists|i: int|
            0 <= i < rs.len() && row_key(#[trigger] rs[i]) == k,
    decreases rs.len(),
{
    if rs.len() > 0 {
        let dl = rs.drop_last();
        lemma_table_contains(dl, k);
        if row_key(rs.last()) == k {
            assert(row_key(rs[rs.len() - 1]) == k);
        } else {
            if table_of(rs).contains_key(k) {
                let i = choose|i: int| 0 <= i < dl.len() && row_key(#[trigger] dl[i]) == k;
                assert(rs[i] == dl[i]);
                assert(row_key(rs[i]) == k);
            }
            if exists|i: int| 0 <= i < rs.len() && row_key(#[trigger] rs[i]) == k {
                let i = choose|i: int| 0 <= i < rs.len() && row_key(#[trigger] rs[i]) == k;
                assert(i != rs.len() - 1);
                assert(dl[i] == rs[i]);
                assert(row_key(dl[i]) == k);
            }
        }
    }
}

/// With unique keys, the table maps each row's key to that row.
pub proof fn lemma_table_lookup(rs: Seq<StoredRowModel>, i: int)
    requires
        unique_keys(rs),
        0 <= i < rs.len(),
    ensures
        table_of(rs).contains_key(row_key(rs[i])),
        table_of(rs)[row_key(rs[i])] == rs[i],
    decreases rs.len(),
{
    if i < rs.len() - 1 {
        let dl = rs.drop_last();
        lemma_unique_keys_drop_last(rs);
        assert(dl[i] == rs[i]);
        lemma_table_lookup(dl, i);
        assert(row_key(rs[i]) != row_key(rs[rs.len() - 1]));
    }
}

/// Replacing the row that carries a key updates the table at that key.
pub proof fn lemma_table_update(rs: Seq<StoredRowModel>, i: int, r: StoredRowModel)
    requires
        unique_keys(rs),
        0 <= i < rs.len(),
        row_key(r) == row_key(rs[i]),
    ensures
        table_of(rs.update(i, r)) == table_of(rs).insert(row_key(r), r),
    decreases rs.len(),
{
    let upd = rs.update(i, r);
    if i == rs.len() - 1 {
        assert(upd.drop_last() =~= rs.drop_last());
        assert(upd.last() == r);
        assert(table_of(upd) =~= table_of(rs).insert(row_key(r), r));
    } else {
        assert(upd.drop_last() =~= rs.drop_last().update(i, r));
        assert(upd.last() == rs.last());
        lemma_unique_keys_drop_last(rs);
        assert(rs.drop_last()[i] == rs[i]);
        lemma_table_update(rs.drop_last(), i, r);
        assert(row_key(r) != row_key(rs.last()));
        assert(table_of(upd) =~= table_of(rs).insert(row_key(r), r));
    }
}

/// Removing the row that carries a key removes that key from the table.
pub proof fn lemma_table_remove(rs: Seq<StoredRowModel>, i: int)
    requires
        unique_keys(rs),
        0 <= i < rs.len(),
    ensures
        table_of(rs.remove(i)) == table_of(rs).remove(row_key(rs[i])),
    decreases rs.len(),
{
    let rem = rs.remove(i);
    if i == rs.len() - 1 {
        assert(rem =~= rs.drop_last());
        lemma_unique_keys_drop_last(rs);
        lemma_table_contains(rs.drop_last(), row_key(rs[i]));
        if table_of(rs.drop_last()).contains_key(row_key(rs[i])) {
            let j = choose|j: int|
                0 <= j < rs.drop_last().len() && row_key(#[trigger] rs.drop_last()[j]) == row_key(
                    rs[i],
                );
            assert(rs.drop_last()[j] == rs[j]);
            assert(row_key(rs[j]) == row_key(rs[i]));
            assert(false);
        }
        assert(table_of(rem) =~= table_of(rs).remove(row_key(rs[i])));
    } else {
        assert(rem.drop_last() =~= rs.drop_last().remove(i));
        assert(rem.last() == rs.last());
        lemma_unique_keys_drop_last(rs);
        assert(rs.drop_last()[i] == rs[i]);
        lemma_table_remove(rs.drop_last(), i);
        assert(row_key(rs[i]) != row_key(rs.last()));
        assert(table_of(rem) =~= table_of(rs).remove(row_key(rs[i])));
    }
}

/// The backing table of stored rows.
pub struct Store {
    rows: Vec<StoredRow>,
}

impl Store {
    /// The rows as mathematical content.
    pub closed spec fn rows_model(self) -> Seq<StoredRowModel> {
        self.rows@.map_values(|r: StoredRow| r@)
    }

    /// Well-formedness: keys are unique, and every row is a proper encoding,
    /// as the engine itself writes them.
    pub closed spec fn wf(self) -> bool {
        &&& unique_keys(self.rows_model())
        &&& forall|i: int|
            0 <= i < self.rows_model().len() ==> stored_wf(#[trigger] self.rows_model()[i])
    }

    /// An empty table.
    pub fn new() -> (s: Store)
        ensures
            s.wf(),
            s@ == Map::<(Seq<char>, Seq<char>), StoredRowModel>::empty(),
    {
        let s = Store { rows: Vec::new() };
        proof {
            assert(s.rows_model() =~= Seq::<StoredRowModel>::empty());
        }
        s
    }
}

impl View for Store {
    type V = Map<(Seq<char>, Seq<char>), StoredRowModel>;

    closed spec fn view(&self) -> Map<(Seq<char>, Seq<char>), StoredRowModel> {
        table_of(self.rows_model())
    }
}

/// Writes a full row in encoded form, replacing any row under the same
/// `(identifier, filename)` key.
pub fn insert(row: DbRow, store: &mut Store)
    requires
        old(store).wf(),
    ensures
        final(store).wf(),
        final(store)@ == old(store)@.insert(blob_key(row@.id, row@.filename), encode_model(row@)),
{
    let ghost old_model = store.rows_model();
    let stored = encode_row(&row);
    let ghost srow = stored@;
    proof {
        lemma_encode_model_wf(row@);
        assert(row_key(srow) == blob_key(row@.id, row@.filename));
    }
    let n = store.rows.len();
    let mut i: usize = 0;
    while i < n
        invariant
            i <= n,
            n == old_model.len(),
            store.wf(),
            store.rows_model() == old_model,
            stored@ == srow,
            srow == encode_model(row@),
            stored_wf(srow),
            row_key(srow) == blob_key(row@.id, row@.filename),
            old(store)@ == table_of(old_model),
            forall|j: int| 0 <= j < i ==> row_key(#[trigger] old_model[j]) != row_key(srow),
        decreases n - i,
    {
        if store.rows[i].id == stored.id && store.rows[i].filename == stored.filename {
            proof {
                assert(row_key(old_model[i as int]) == row_key(srow));
            }
            store.rows.set(i, stored);
            proof {
                assert(store.rows_model() =~= old_model.update(i as int, srow));
                lemma_table_update(old_model, i as int, srow);
                assert forall|x: int, y: int|
                    #![trigger row_key(store.rows_model()[x]), row_key(store.rows_model()[y])]
                    0 <= x < y < store.rows_model().len() implies row_key(store.rows_model()[x])
                    != row_key(store.rows_model()[y]) by {
                    let m = store.rows_model();
                    if x != i && y != i {
                        assert(m[x] == old_model[x] && m[y] == old_model[y]);
                        assert(row_key(old_model[x]) != row_key(old_model[y]));
                    } else if x == i {
                        assert(m[x] == srow && m[y] == old_model[y]);
                        assert(row_key(old_model[i as int]) != row_key(old_model[y]));
                    } else {
                        assert(m[y] == srow && m[x] == old_model[x]);
                        assert(row_key(old_model[x]) != row_key(old_model[i as int]));
                    }
                }
                assert forall|x: int| 0 <= x < store.rows_model().len() implies stored_wf(
                    #[trigger] store.rows_model()[x],
                ) by {
                    if x != i {
                        assert(store.rows_model()[x] == old_model[x]);
                    }
                }
            }
            return;
        }
        i = i + 1;
    }
    store.rows.push(stored);
    proof {
        assert(store.rows_model() =~= old_model.push(srow));
        let m = store.rows_model();
        assert(m.drop_last() =~= old_model);
        assert(table_of(m) == table_of(old_model).insert(row_key(srow), srow));
        assert forall|x: int, y: int|
            #![trigger row_key(m[x]), row_key(m[y])]
            0 <= x < y < m.len() implies row_key(m[x]) != row_key(m[y]) by {
            if y == m.len() - 1 {
                assert(m[x] == old_model[x] && m[y] == srow);
            } else {
                assert(m[x] == old_model[x] && m[y] == old_model[y]);
                assert(row_key(old_model[x]) != row_key(old_model[y]));
            }
        }
        assert forall|x: int| 0 <= x < m.len() implies stored_wf(#[trigger] m[x]) by {
            if x != m.len() - 1 {
                assert(m[x] == old_model[x]);
            }
        }
    }
}

/// Reads the full row under a key, body decoded; fails with the typed
/// not-found outcome when no row matches.
pub fn select(id: BlobId, filename: String, store: &Store) -> (r: Result<DbRow, ErrNoId>)
    requires
        store.wf(),
    ensures
        match r {
            Ok(d) => store@.contains_key(blob_key(id.value, filename@)) && encode_model(d@)
                == store@[blob_key(id.value, filename@)],
            Err(e) => !store@.contains_key(blob_key(id.value, filename@)) && e.id == id && e.err@
                == not_found_message(id.value),
        },
{
    let ghost k = blob_key(id.value, filename@);
    let ghost m = store.rows_model();
    let id_text = format_uuid(id);
    let n = store.rows.len();
    let mut i: usize = 0;
    while i < n
        invariant
            i <= n,
            n == m.len(),
            store.wf(),
            m == store.rows_model(),
            id_text@ == uuid_chars(id.value),
            k == blob_key(id.value, filename@),
            forall|j: int| 0 <= j < i ==> row_key(#[trigger] m[j]) != k,
        decreases n - i,
    {
        if store.rows[i].id == id_text && store.rows[i].filename == filename {
            proof {
                assert(row_key(m[i as int]) == k);
                lemma_table_lookup(m, i as int);
            }
            match decode_row(&store.rows[i]) {
                Ok(d) => {
                    return Ok(d);
                },
                Err(_) => {
                    proof {
                        assert(stored_wf(m[i as int]));
                        assert(false);
                    }
                    return Err(not_found_error(id));
                },
            }
        }
        i = i + 1;
    }
    proof {
        lemma_table_contains(m, k);
    }
    Err(not_found_error(id))
}

/// Reads the row under a key without touching its body column; fails with
/// the typed not-found outcome when no row matches.
pub fn select_without_body(id: BlobId, filename: String, store: &Store) -> (r: Result<
    DbRowWithoutBody,
    ErrNoId,
>)
    requires
        store.wf(),
    ensures
        match r {
            Ok(d) => store@.contains_key(blob_key(id.value, filename@)) && meta_matches(
                d@,
                store@[blob_key(id.value, filename@)],
            ),
            Err(e) => !store@.contains_key(blob_key(id.value, filename@)) && e.id == id && e.err@
                == not_found_message(id.value),
        },
{
    let ghost k = blob_key(id.value, filename@);
    let ghost m = store.rows_model();
    let id_text = format_uuid(id);
    let n = store.rows.len();
    let mut i: usize = 0;
    while i < n
        invariant
            i <= n,
            n == m.len(),
            store.wf(),
            m == store.rows_model(),
            id_text@ == uuid_chars(id.value),
            k == blob_key(id.value, filename@),
            forall|j: int| 0 <= j < i ==> row_key(#[trigger] m[j]) != k,
        decreases n - i,
    {
        if store.rows[i].id == id_text && store.rows[i].filename == filename {
            proof {
                assert(row_key(m[i as int]) == k);
                lemma_table_lookup(m, i as int);
            }
            match decode_row_without_body(&store.rows[i]) {
                Ok(d) => {
                    return Ok(d);
                },
                Err(_) => {
                    proof {
                        assert(stored_wf(m[i as int]));
                        assert(false);
                    }
                    return Err(not_found_error(id));
                },
            }
        }
        i = i + 1;
    }
    proof {
        lemma_table_contains(m, k);
    }
    Err(not_found_error(id))
}

/// Removes the row under a key; a no-op when no row matches.
pub fn delete(id: BlobId, filename: String, store: &mut Store)
    requires
        old(store).wf(),
    ensures
        final(store).wf(),
        final(store)@ == old(store)@.remove(blob_key(id.value, filename@)),
{
    let ghost k = blob_key(id.value, filename@);
    let ghost old_model = store.rows_model();
    let id_text = format_uuid(id);
    let n = store.rows.len();
    let mut i: usize = 0;
    while i < n
        invariant
            i <= n,
            n == old_model.len(),
            store.wf(),
            old_model == store.rows_model(),
            old(store)@ == table_of(old_model),
            id_text@ == uuid_chars(id.value),
            k == blob_key(id.value, filename@),
            forall|j: int| 0 <= j < i ==> row_key(#[trigger] old_model[j]) != k,
        decreases n - i,
    {
        if store.rows[i].id == id_text && store.rows[i].filename == filename {
            proof {
                assert(row_key(old_model[i as int]) == k);
            }
            store.rows.remove(i);
            proof {
                assert(store.rows_model() =~= old_model.remove(i as int));
                lemma_table_remove(old_model, i as int);
                let m = store.rows_model();
                assert forall|x: int, y: int|
                    #![trigger row_key(m[x]), row_key(m[y])]
                    0 <= x < y < m.len() implies row_key(m[x]) != row_key(m[y]) by {
                    let ox: int = if x < i { x } else { x + 1 };
                    let oy: int = if y < i { y } else { y + 1 };
                    assert(m[x] == old_model[ox] && m[y] == old_model[oy]);
                    assert(row_key(old_model[ox]) != row_key(old_model[oy]));
                }
                assert forall|x: int| 0 <= x < m.len() implies stored_wf(#[trigger] m[x]) by {
                    let ox: int = if x < i { x } else { x + 1 };
                    assert(m[x] == old_model[ox]);
                    assert(stored_wf(old_model[ox]));
                }
            }
            return;
        }
        i = i + 1;
    }
    proof {
        lemma_table_contains(old_model, k);
        assert(store@ =~= old(store)@.remove(k));
    }
}

} // verus!
