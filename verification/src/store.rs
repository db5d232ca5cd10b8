//! The checkpoint store: a durable map from file path to tailing state,
//! backed by an embedded relational database with replace-on-conflict upsert
//! semantics keyed by path.
//!
//! The store is modelled as a map from the path to the checkpoint value. The
//! schema declares the path column `UNIQUE ON CONFLICT REPLACE`, so a plain
//! insert fully replaces the row for an existing path without a separate
//! read before the write.

use vstd::prelude::*;

use crate::errors::ISUProcessorError;

verus! {

/// The tailing state persisted for one source file path.
pub struct ISUFile {
    /// The absolute path of the source file; the unique key.
    pub path: String,
    /// The byte offset up to which the source has been normalized and
    /// emitted.
    pub last_position_read: i64,
    /// The count of events emitted so far; meaningful only for event-log
    /// files and zero for tabular ones.
    pub last_index: i32,
    /// The output column names as one comma-joined string, fixed at initial
    /// processing.
    pub headers: String,
    /// The run timestamp of the file's directory, fixed at initial
    /// processing.
    pub time: String,
}

/// The mathematical value of a checkpoint.
pub struct CheckpointView {
    pub path: Seq<char>,
    pub last_position_read: int,
    pub last_index: int,
    pub headers: Seq<char>,
    pub time: Seq<char>,
}

impl View for ISUFile {
    type V = CheckpointView;

    open spec fn view(&self) -> CheckpointView {
        CheckpointView {
            path: self.path@,
            last_position_read: self.last_position_read as int,
            last_index: self.last_index as int,
            headers: self.headers@,
            time: self.time@,
        }
    }
}

#[verifier::external_type_specification]
#[verifier::external_body]
pub struct ExConnection(rusqlite::Connection);

/// The map of checkpoints, keyed by source file path, that the database
/// behind a connection holds. The connection value is opaque, so the map is
/// pinned down only by the contracts of the store operations below.
pub uninterp spec fn store_contents(conn: rusqlite::Connection) -> Map<Seq<char>, CheckpointView>;

/// A handle on the checkpoint database. The engine serializes access per
/// store handle; concurrent handles on one backing file are the host's
/// responsibility.
pub struct CheckpointStore {
    /// The underlying database connection; opaque to reasoning, which goes
    /// through `store_contents` instead.
    pub conn: rusqlite::Connection,
}

/// The contents of a store that holds no checkpoint yet.
pub open spec fn empty_contents() -> Map<Seq<char>, CheckpointView> {
    Map::empty()
}

impl CheckpointStore {
    /// The checkpoints the store holds, keyed by source file path.
    pub open spec fn contents(&self) -> Map<Seq<char>, CheckpointView> {
        store_contents(self.conn)
    }

    /// Relies on rusqlite's `Connection::open`: opens, or creates, the
    /// backing database file. The file may already hold checkpoints, so
    /// nothing is assumed of the contents.
    #[verifier::external_body]
    pub fn open(path: &str) -> (r: Result<CheckpointStore, ISUProcessorError>)
    {
        match rusqlite::Connection::open(path) {
            Ok(conn) => Ok(CheckpointStore { conn }),
            Err(_) => Err(ISUProcessorError::StoreError),
        }
    }

    /// Relies on rusqlite's `Connection::open_in_memory`: a fresh in-memory
    /// database holds no checkpoints.
    #[verifier::external_body]
    pub fn open_in_memory() -> (r: Result<CheckpointStore, ISUProcessorError>)
        ensures
            r matches Ok(s) ==> store_contents(s.conn) == empty_contents(),
    {
        match rusqlite::Connection::open_in_memory() {
            Ok(conn) => Ok(CheckpointStore { conn }),
            Err(_) => Err(ISUProcessorError::StoreError),
        }
    }

    /// Relies on rusqlite's `Connection::execute` running
    /// `CREATE TABLE IF NOT EXISTS`: it creates the checkpoint schema when
    /// missing and never touches existing rows.
    #[verifier::external_body]
    pub fn init(&self) -> (r: Result<(), ISUProcessorError>)
    {
        let result = self.conn.execute(
            "CREATE TABLE IF NOT EXISTS isu (path text UNIQUE ON CONFLICT REPLACE, last_position_read integer, headers text, time text, last_index integer);",
            [],
        );
        match result {
            Ok(_) => Ok(()),
            Err(_) => Err(ISUProcessorError::StoreError),
        }
    }

    /// Relies on rusqlite's `Connection::query_row` with `WHERE path = ?1`:
    /// it returns the single row stored for the path, whose path column
    /// equals the queried path, and `QueryReturnedNoRows` when the path has
    /// no row. Absence is not an error.
    #[verifier::external_body]
    pub fn get(&self, path: &str) -> (r: Result<Option<ISUFile>, ISUProcessorError>)
        ensures
            match r {
                Ok(found) => match found {
                    Some(f) => store_contents(self.conn).contains_key(path@)
                        && f@ == store_contents(self.conn)[path@] && f.path@ == path@,
                    None => !store_contents(self.conn).contains_key(path@),
                },
                Err(e) => e == ISUProcessorError::StoreError,
            },
    {
        let result = self.conn.query_row(
            "SELECT path, last_position_read, headers, time, last_index FROM isu WHERE path = ?1",
            [path],
            |row| {
                let (row_path, last_position_read) = (row.get(0)?, row.get(1)?);
                let (headers, time, last_index) = (row.get(2)?, row.get(3)?, row.get(4)?);
                Ok(ISUFile { path: row_path, last_position_read, headers, time, last_index })
            },
        );
        match result {
            Ok(f) => Ok(Some(f)),
            Err(rusqlite::Error::QueryReturnedNoRows) => Ok(None),
            Err(rusqlite::Error::ExecuteReturnedResults) => Ok(None),
            Err(_) => Err(ISUProcessorError::StoreError),
        }
    }

    /// Relies on rusqlite's `Connection::execute` running an `INSERT` against
    /// the `UNIQUE ON CONFLICT REPLACE` path column: the row for the path is
    /// inserted or fully replaced, and a failed statement changes nothing.
    #[verifier::external_body]
    pub fn put(&mut self, f: &ISUFile) -> (r: Result<(), ISUProcessorError>)
        ensures
            r is Ok ==> store_contents(final(self).conn) == store_contents(old(self).conn).insert(
                f.path@,
                f@,
            ),
            r is Err ==> store_contents(final(self).conn) == store_contents(old(self).conn),
            r matches Err(e) ==> e == ISUProcessorError::StoreError,
    {
        let result = self.conn.execute(
            "INSERT INTO isu(path, last_position_read, headers, time, last_index) VALUES (?1, ?2, ?3, ?4, ?5)",
            (&f.path, &f.last_position_read, &f.headers, &f.time, &f.last_index),
        );
        match result {
            Ok(_) => Ok(()),
            Err(_) => Err(ISUProcessorError::StoreError),
        }
    }
}

/// Where tailing a source of `len` bytes from offset `pos` leaves the
/// checkpoint offset: at the end of the data when the stored offset lies
/// inside it, and unchanged when the stored offset lies beyond the end,
/// where seeking consumes nothing.
pub open spec fn tail_new_position(pos: int, len: int) -> int {
    if pos <= len {
        len
    } else {
        pos
    }
}

/// The checkpoint offset never decreases across a tail, and equals the byte
/// length consumed so far whenever the stored offset lies inside the data.
pub proof fn lemma_tail_position_monotonic(pos: int, len: int)
    ensures
        tail_new_position(pos, len) >= pos,
        pos <= len ==> tail_new_position(pos, len) == len,
{
}

/// Saving two checkpoints for the same path back to back leaves exactly one
/// stored record for that path, equal to the second write, whatever the
/// first held.
pub proof fn lemma_upsert_determinism(
    m: Map<Seq<char>, CheckpointView>,
    a: CheckpointView,
    b: CheckpointView,
)
    requires
        a.path == b.path,
    ensures
        m.insert(a.path, a).insert(b.path, b) == m.insert(b.path, b),
        m.insert(a.path, a).insert(b.path, b)[b.path] == b,
        m.insert(a.path, a).insert(b.path, b).dom() == m.dom().insert(b.path),
{
    assert(m.insert(a.path, a).insert(b.path, b) =~= m.insert(b.path, b));
    assert(m.insert(a.path, a).insert(b.path, b).dom() =~= m.dom().insert(b.path));
}

} // verus!
