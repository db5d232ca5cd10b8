//! The engine's entry points: one processing call per file, dispatched by
//! the format classifier, running the initial or tail strategy against the
//! checkpoint store.
//!
//! A call is split in two phases so that the caller can flush the output
//! artifact before the checkpoint is persisted: `plan` computes the artifact
//! bytes and the checkpoint without touching the store, and `commit` writes
//! the checkpoint. `process` runs both around the downstream-channel check,
//! and writes no checkpoint on any failure path, so a failed call can be
//! retried and reprocesses the same span.

use vstd::prelude::*;
use vstd::string::StringExecFns;

use crate::classify::classify;
use crate::classify::is_event_path;
use crate::classify::FileKind;
use crate::csv_io::csv_encoding_of;
use crate::csv_io::csv_write;
use crate::errors::ISUProcessorError;
use crate::events::initial_event;
use crate::events::spec_event_initial;
use crate::events::spec_event_tail;
use crate::events::tail_event;
use crate::store::CheckpointStore;
use crate::store::CheckpointView;
use crate::store::ISUFile;
use crate::tabular::initial_tabular;
use crate::tabular::spec_tabular_initial;
use crate::tabular::spec_tabular_tail;
use crate::tabular::tail_tabular;

verus! {

/// The outcome of planning one processing call.
pub struct Planned {
    /// The bytes of the output artifact.
    pub artifact: Vec<u8>,
    /// The checkpoint to persist once the artifact is flushed.
    pub checkpoint: ISUFile,
}

/// What one processing call makes of the stored checkpoints, the path and
/// the file data: a path that mentions the event marker runs the event-log
/// strategy, every other path the tabular one; a stored checkpoint selects
/// the tail entry point, its absence the initial one.
pub open spec fn spec_plan(
    contents: Map<Seq<char>, CheckpointView>,
    path: Seq<char>,
    data: Seq<u8>,
) -> Result<(Seq<Seq<Seq<u8>>>, CheckpointView), ISUProcessorError> {
    if is_event_path(path) {
        if contents.contains_key(path) {
            spec_event_tail(contents[path], data)
        } else {
            spec_event_initial(path, data)
        }
    } else {
        if contents.contains_key(path) {
            spec_tabular_tail(contents[path], data)
        } else {
            spec_tabular_initial(path, data)
        }
    }
}

/// The incremental tailing and normalization engine over one checkpoint
/// store.
pub struct ISUProcessor {
    /// The checkpoint store the engine runs against.
    pub store: CheckpointStore,
}

impl ISUProcessor {
    /// The checkpoints the engine's store holds.
    pub open spec fn contents(&self) -> Map<Seq<char>, CheckpointView> {
        self.store.contents()
    }

    /// Opens the engine over its usual on-disk checkpoint database.
    pub fn new() -> (r: Result<ISUProcessor, ISUProcessorError>)
    {
        match CheckpointStore::open("./agn201_plugin") {
            Result::Ok(store) => Result::Ok(ISUProcessor { store }),
            Result::Err(e) => Result::Err(e),
        }
    }

    /// Wraps an already opened checkpoint store.
    pub fn with_store(store: CheckpointStore) -> (r: ISUProcessor)
        ensures
            r.contents() == store.contents(),
    {
        ISUProcessor { store }
    }

    /// Ensures the checkpoint schema exists; never destructive.
    pub fn init(&self) -> (r: Result<(), ISUProcessorError>)
    {
        self.store.init()
    }

    /// The stored checkpoint for a path; absence is not an error.
    pub fn fetch(&self, path: &str) -> (r: Result<Option<ISUFile>, ISUProcessorError>)
        ensures
            match r {
                Ok(found) => match found {
                    Some(f) => self.contents().contains_key(path@) && f@ == self.contents()[path@]
                        && f.path@ == path@,
                    None => !self.contents().contains_key(path@),
                },
                Err(e) => e == ISUProcessorError::StoreError,
            },
    {
        self.store.get(path)
    }

    /// Persists a checkpoint, inserting or fully replacing the record for
    /// its path. Call it only after the corresponding output artifact has
    /// been flushed.
    pub fn commit(&mut self, cp: &ISUFile) -> (r: Result<(), ISUProcessorError>)
        ensures
            r is Ok ==> final(self).contents() == old(self).contents().insert(cp.path@, cp@),
            r is Err ==> final(self).contents() == old(self).contents() && (r matches Err(e)
                && e == ISUProcessorError::StoreError),
    {
        self.store.put(cp)
    }

    /// Computes one processing call without touching the store: classifies
    /// the path, consults the stored checkpoint to choose initial or tail
    /// processing, and returns the encoded artifact together with the
    /// checkpoint to persist once the artifact is flushed.
    pub fn plan(&self, path: &str, data: &[u8]) -> (r: Result<Planned, ISUProcessorError>)
        ensures
            ({
                let planned = spec_plan(self.contents(), path@, data@);
                match r {
                    Ok(p) => planned matches Ok(pr) && p.artifact@ == csv_encoding_of(pr.0)
                        && p.checkpoint@ == pr.1,
                    Err(e) => (planned matches Err(pe) && e == pe) || e
                        == ISUProcessorError::StoreError || (planned is Ok && e
                        == ISUProcessorError::CSVError),
                }
            }),
    {
        let kind = classify(path);
        let existing: Option<ISUFile> = match self.store.get(path) {
            Result::Err(e) => { return Result::Err(e) },
            Result::Ok(o) => o,
        };
        let step: Result<(Vec<Vec<Vec<u8>>>, ISUFile), ISUProcessorError> = match kind {
            FileKind::EventLog => match existing {
                Option::None => initial_event(path, data),
                Option::Some(f) => tail_event(&f, data),
            },
            FileKind::Tabular => match existing {
                Option::None => initial_tabular(path, data),
                Option::Some(f) => tail_tabular(&f, data),
            },
        };
        let (rows, checkpoint): (Vec<Vec<Vec<u8>>>, ISUFile) = match step {
            Result::Err(e) => { return Result::Err(e) },
            Result::Ok(p) => p,
        };
        let artifact: Vec<u8> = match csv_write(&rows) {
            Result::Err(e) => { return Result::Err(e) },
            Result::Ok(b) => b,
        };
        Result::Ok(Planned { artifact, checkpoint })
    }

    /// One full processing call: plan, require a downstream channel, then
    /// persist the checkpoint and hand back the artifact bytes. Every error
    /// aborts the call with the store unchanged, so a retry reprocesses the
    /// same span; a missing channel surfaces only after the result has been
    /// computed.
    pub fn process(&mut self, path: &str, data: &[u8], channel_present: bool) -> (r: Result<
        Vec<u8>,
        ISUProcessorError,
    >)
        ensures
            ({
                let planned = spec_plan(old(self).contents(), path@, data@);
                match r {
                    Ok(artifact) => channel_present && (planned matches Ok(pr) && artifact@
                        == csv_encoding_of(pr.0) && final(self).contents() == old(
                        self,
                    ).contents().insert(pr.1.path, pr.1)),
                    Err(e) => final(self).contents() == old(self).contents() && (e
                        == ISUProcessorError::StoreError || (planned matches Err(pe) && e == pe)
                        || (planned is Ok && (e == ISUProcessorError::CSVError || (!channel_present
                        && e == ISUProcessorError::NoChannelError)))),
                }
            }),
            !channel_present ==> r is Err,
    {
        let planned: Planned = match self.plan(path, data) {
            Result::Err(e) => { return Result::Err(e) },
            Result::Ok(p) => p,
        };
        if !channel_present {
            return Result::Err(ISUProcessorError::NoChannelError);
        }
        match self.commit(&planned.checkpoint) {
            Result::Err(e) => Result::Err(e),
            Result::Ok(()) => Result::Ok(planned.artifact),
        }
    }
}

/// Relies on `Uuid::new_v4` of the uuid crate and its hyphenated `Display`
/// form: a fresh random identifier rendered as 36 characters. Nothing more
/// is assumed; two calls may differ.
#[verifier::external_body]
fn fresh_uuid_string() -> (r: String)
    ensures
        r@.len() == 36,
{
    uuid::Uuid::new_v4().to_string()
}

/// A collision-free file name for one output artifact: a fresh identifier
/// with the delimited-file suffix.
pub fn artifact_name() -> (r: String)
    ensures
        r@.len() == 40,
        r@.skip(36) == seq!['.', 'c', 's', 'v'],
{
    let mut name: String = fresh_uuid_string();
    name.append(".csv");
    proof {
        reveal_strlit(".csv");
        assert(name@.skip(36) =~= seq!['.', 'c', 's', 'v']);
    }
    name
}

/// Processing an untouched file again, with no new data past the stored
/// offset, plans an artifact holding only the stored header row, and the
/// checkpoint it would write equals the stored one, so the store is left
/// exactly as it was.
pub proof fn lemma_plan_idempotent(
    contents: Map<Seq<char>, CheckpointView>,
    path: Seq<char>,
    data: Seq<u8>,
)
    requires
        contents.contains_key(path),
        contents[path].path == path,
        contents[path].last_position_read == data.len(),
        0 <= contents[path].last_index,
        data.len() <= i64::MAX,
    ensures
        spec_plan(contents, path, data) matches Ok(p)
            && p.0 == seq![
            crate::textops::split_fields(vstd::utf8::encode_utf8(contents[path].headers)),
        ]
            && p.1 == contents[path],
        contents.insert(path, contents[path]) == contents,
{
    let cp = contents[path];
    let span = data.subrange(cp.last_position_read, data.len() as int);
    assert(span =~= Seq::<u8>::empty());
    if is_event_path(path) {
        assert(crate::events::event_rows_from(
            data,
            cp.last_position_read,
            cp.last_index,
            vstd::utf8::encode_utf8(cp.time),
            false,
        ) == Result::<Seq<Seq<Seq<u8>>>, ISUProcessorError>::Ok(Seq::empty()));
        let p = spec_event_tail(cp, data)->Ok_0;
        assert(p.0 =~= seq![
            crate::textops::split_fields(vstd::utf8::encode_utf8(cp.headers)),
        ]);
        assert(p.1 == cp);
    } else {
        let recs = crate::csv_io::spec_parse_records(span)->Some_0;
        assert(recs =~= Seq::<Seq<Seq<u8>>>::empty());
        let p = spec_tabular_tail(cp, data)->Ok_0;
        assert(recs.map(|i: int, rec: Seq<Seq<u8>>| rec.push(vstd::utf8::encode_utf8(cp.time)))
            =~= Seq::<Seq<Seq<u8>>>::empty());
        assert(p.0 =~= seq![
            crate::textops::split_fields(vstd::utf8::encode_utf8(cp.headers)),
        ]);
        assert(p.1 == cp);
    }
    assert(contents.insert(path, contents[path]) =~= contents);
}

} // verus!
